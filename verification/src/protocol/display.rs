//! Display identities describe capture sources, independently of a codec or GPU vendor.

use crate::text;
use crate::text::has_control;
use vstd::prelude::*;

verus! {

pub const MAX_DISPLAYS: usize = 32;

pub const MAX_ADAPTERS: usize = 32;

pub const MAX_DISPLAY_ID_BYTES: usize = 512;

#[derive(Clone, Copy, Debug, PartialEq, Eq, Structural)]
pub enum DisplayError {
    InvalidIdentity,
    TooManyDevices,
    DuplicateIdentity,
    MissingAdapter,
    InvalidDimensions,
    Unavailable,
    Ambiguous,
}

/// A name that a device may have: bounded, without control characters.
pub open spec fn is_device_name(name: Seq<char>) -> bool {
    text::byte_length(name) <= MAX_DISPLAY_ID_BYTES && text::is_printable(name)
}

fn valid_device_name(name: &String) -> (result: bool)
    ensures
        result == is_device_name(name@),
{
    name.as_str().as_bytes().len() <= MAX_DISPLAY_ID_BYTES && !has_control(name.as_str())
}

/// An opaque host-scoped identity, resolved against a fresh inventory rather than an ordinal.
#[derive(Clone, Debug, PartialEq, Eq, PartialOrd, Ord)]
pub struct DisplayId {
    value: String,
}

impl View for DisplayId {
    type V = Seq<char>;

    closed spec fn view(&self) -> Seq<char> {
        self.value@
    }
}

impl DisplayId {
    pub fn new(value: String) -> (result: Result<Self, DisplayError>)
        ensures
            match result {
                Ok(id) => value@.len() != 0 && is_device_name(value@) && id@ == value@,
                Err(error) => (value@.len() == 0 || !is_device_name(value@)) && error
                    == DisplayError::InvalidIdentity,
            },
    {
        if value.as_str().is_empty() || !valid_device_name(&value) {
            return Err(DisplayError::InvalidIdentity);
        }
        Ok(DisplayId { value })
    }

    pub fn as_str(&self) -> (value: &str)
        ensures
            value@ == self@,
    {
        self.value.as_str()
    }

    /// Whether two identities are the same.
    pub fn same(&self, other: &Self) -> (result: bool)
        ensures
            result == (self@ == other@),
    {
        self.value == other.value
    }

    fn copied(&self) -> (copy: Self)
        ensures
            copy == *self,
    {
        DisplayId { value: self.value.clone() }
    }
}

/// An adapter identity in the current host topology, not a persistent GPU ordinal.
#[derive(Clone, Copy, Debug, PartialEq, Eq, PartialOrd, Ord, Structural)]
pub struct AdapterId(pub u64);

#[derive(Clone, Debug, PartialEq, Eq)]
pub struct GraphicsAdapter {
    pub id: AdapterId,
    pub name: String,
    pub vendor_id: u32,
    pub device_id: u32,
    pub software: bool,
}

#[derive(Clone, Debug, PartialEq, Eq)]
pub struct Display {
    pub id: DisplayId,
    pub name: String,
    pub adapter: AdapterId,
    pub width: u32,
    pub height: u32,
    pub refresh_rate: u32,
    pub primary: bool,
}

#[derive(Clone, Debug, PartialEq, Eq)]
pub enum DisplaySelection {
    Primary,
    Id(DisplayId),
}

impl Default for DisplaySelection {
    fn default() -> (selection: Self)
        ensures
            selection == DisplaySelection::Primary,
    {
        DisplaySelection::Primary
    }
}

impl Display {
    /// The selection names this display.
    pub open spec fn is_selected(self, selection: DisplaySelection) -> bool {
        match selection {
            DisplaySelection::Primary => self.primary,
            DisplaySelection::Id(id) => self.id@ == id@,
        }
    }

    fn matches_selection(&self, selection: &DisplaySelection) -> (result: bool)
        ensures
            result == self.is_selected(*selection),
    {
        match selection {
            DisplaySelection::Primary => self.primary,
            DisplaySelection::Id(id) => self.id.same(id),
        }
    }
}

/// The first adapter that is wrong, in order: a bad name, or an identity that an earlier one has.
pub open spec fn adapters_error(adapters: Seq<GraphicsAdapter>) -> Option<DisplayError>
    decreases adapters.len(),
{
    if adapters.len() == 0 {
        None
    } else {
        match adapters_error(adapters.drop_last()) {
            Some(error) => Some(error),
            None => if !is_device_name(adapters.last().name@) {
                Some(DisplayError::InvalidIdentity)
            } else if has_adapter(adapters.drop_last(), adapters.last().id) {
                Some(DisplayError::DuplicateIdentity)
            } else {
                None
            },
        }
    }
}

pub open spec fn has_adapter(adapters: Seq<GraphicsAdapter>, id: AdapterId) -> bool {
    exists|i: int| 0 <= i < adapters.len() && (#[trigger] adapters[i]).id == id
}

pub open spec fn has_display(displays: Seq<Display>, id: Seq<char>) -> bool {
    exists|i: int| 0 <= i < displays.len() && (#[trigger] displays[i]).id@ == id
}

/// The first display that is wrong, in order.
pub open spec fn displays_error(
    displays: Seq<Display>,
    adapters: Seq<GraphicsAdapter>,
) -> Option<DisplayError>
    decreases displays.len(),
{
    if displays.len() == 0 {
        None
    } else {
        match displays_error(displays.drop_last(), adapters) {
            Some(error) => Some(error),
            None => {
                let last = displays.last();
                if !is_device_name(last.name@) {
                    Some(DisplayError::InvalidIdentity)
                } else if has_display(displays.drop_last(), last.id@) {
                    Some(DisplayError::DuplicateIdentity)
                } else if !has_adapter(adapters, last.adapter) {
                    Some(DisplayError::MissingAdapter)
                } else if last.width == 0 || last.height == 0 {
                    Some(DisplayError::InvalidDimensions)
                } else {
                    None
                }
            },
        }
    }
}

/// What is wrong with an inventory.
pub open spec fn inventory_error(
    displays: Seq<Display>,
    adapters: Seq<GraphicsAdapter>,
) -> Option<DisplayError> {
    if displays.len() > MAX_DISPLAYS || adapters.len() > MAX_ADAPTERS {
        Some(DisplayError::TooManyDevices)
    } else if adapters_error(adapters) is Some {
        adapters_error(adapters)
    } else {
        displays_error(displays, adapters)
    }
}

/// The displays and adapters of a host, checked against each other.
#[derive(Debug, PartialEq, Eq)]
pub struct DisplayInventory {
    displays: Vec<Display>,
    adapters: Vec<GraphicsAdapter>,
}

/// An inventory as it is handed over, not yet checked.
#[derive(Clone, Debug, PartialEq, Eq)]
pub struct DisplayCatalog {
    pub displays: Vec<Display>,
    pub adapters: Vec<GraphicsAdapter>,
}

proof fn lemma_adapters_error_stays(adapters: Seq<GraphicsAdapter>, count: int)
    requires
        0 <= count <= adapters.len(),
        adapters_error(adapters.take(count)) is Some,
    ensures
        adapters_error(adapters) == adapters_error(adapters.take(count)),
    decreases adapters.len(),
{
    if count == adapters.len() {
        assert(adapters.take(count) =~= adapters);
    } else {
        assert(adapters.drop_last().take(count) =~= adapters.take(count));
        lemma_adapters_error_stays(adapters.drop_last(), count);
    }
}

proof fn lemma_displays_error_stays(
    displays: Seq<Display>,
    adapters: Seq<GraphicsAdapter>,
    count: int,
)
    requires
        0 <= count <= displays.len(),
        displays_error(displays.take(count), adapters) is Some,
    ensures
        displays_error(displays, adapters) == displays_error(displays.take(count), adapters),
    decreases displays.len(),
{
    if count == displays.len() {
        assert(displays.take(count) =~= displays);
    } else {
        assert(displays.drop_last().take(count) =~= displays.take(count));
        lemma_displays_error_stays(displays.drop_last(), adapters, count);
    }
}

/// Whether one of the first `count` adapters is `id`.
fn find_adapter(adapters: &Vec<GraphicsAdapter>, count: usize, id: AdapterId) -> (result: bool)
    requires
        count <= adapters@.len(),
    ensures
        result == has_adapter(adapters@.take(count as int), id),
{
    let mut index: usize = 0;
    while index < count
        invariant
            index <= count <= adapters@.len(),
            forall|i: int| 0 <= i < index ==> (#[trigger] adapters@[i]).id != id,
        decreases count - index,
    {
        if adapters[index].id == id {
            assert(adapters@.take(count as int)[index as int].id == id);
            return true;
        }
        index = index + 1;
    }
    assert forall|i: int| 0 <= i < count implies (#[trigger] adapters@.take(count as int)[i]).id
        != id by {
        assert(adapters@[i].id != id);
    }
    false
}

/// Whether one of the first `count` displays is `id`.
fn find_display(displays: &Vec<Display>, count: usize, id: &DisplayId) -> (result: bool)
    requires
        count <= displays@.len(),
    ensures
        result == has_display(displays@.take(count as int), id@),
{
    let mut index: usize = 0;
    while index < count
        invariant
            index <= count <= displays@.len(),
            forall|i: int| 0 <= i < index ==> (#[trigger] displays@[i]).id@ != id@,
        decreases count - index,
    {
        if displays[index].id.same(id) {
            assert(displays@.take(count as int)[index as int].id@ == id@);
            return true;
        }
        index = index + 1;
    }
    assert forall|i: int| 0 <= i < count implies (#[trigger] displays@.take(count as int)[i]).id@
        != id@ by {
        assert(displays@[i].id@ != id@);
    }
    false
}

fn check_adapters(adapters: &Vec<GraphicsAdapter>) -> (error: Option<DisplayError>)
    ensures
        error == adapters_error(adapters@),
{
    let mut index: usize = 0;
    while index < adapters.len()
        invariant
            index <= adapters@.len(),
            adapters_error(adapters@.take(index as int)) is None,
        decreases adapters@.len() - index,
    {
        let ghost next = adapters@.take(index + 1);
        assert(next.drop_last() =~= adapters@.take(index as int));
        assert(next.last() == adapters@[index as int]);
        if !valid_device_name(&adapters[index].name) {
            proof {
                lemma_adapters_error_stays(adapters@, index + 1);
            }
            return Some(DisplayError::InvalidIdentity);
        }
        if find_adapter(adapters, index, adapters[index].id) {
            proof {
                lemma_adapters_error_stays(adapters@, index + 1);
            }
            return Some(DisplayError::DuplicateIdentity);
        }
        index = index + 1;
    }
    assert(adapters@.take(index as int) =~= adapters@);
    None
}

fn check_displays(displays: &Vec<Display>, adapters: &Vec<GraphicsAdapter>) -> (error: Option<
    DisplayError,
>)
    ensures
        error == displays_error(displays@, adapters@),
{
    let mut index: usize = 0;
    assert(adapters@.take(adapters@.len() as int) =~= adapters@);
    while index < displays.len()
        invariant
            index <= displays@.len(),
            adapters@.take(adapters@.len() as int) == adapters@,
            displays_error(displays@.take(index as int), adapters@) is None,
        decreases displays@.len() - index,
    {
        let ghost next = displays@.take(index + 1);
        assert(next.drop_last() =~= displays@.take(index as int));
        assert(next.last() == displays@[index as int]);
        let error = if !valid_device_name(&displays[index].name) {
            Some(DisplayError::InvalidIdentity)
        } else if find_display(displays, index, &displays[index].id) {
            Some(DisplayError::DuplicateIdentity)
        } else if !find_adapter(adapters, adapters.len(), displays[index].adapter) {
            Some(DisplayError::MissingAdapter)
        } else if displays[index].width == 0 || displays[index].height == 0 {
            Some(DisplayError::InvalidDimensions)
        } else {
            None
        };
        if error.is_some() {
            proof {
                lemma_displays_error_stays(displays@, adapters@, index + 1);
            }
            return error;
        }
        index = index + 1;
    }
    assert(displays@.take(index as int) =~= displays@);
    None
}

impl DisplayInventory {
    #[verifier::type_invariant]
    spec fn is_checked(self) -> bool {
        inventory_error(self.displays@, self.adapters@) is None
    }

    pub closed spec fn display_list(self) -> Seq<Display> {
        self.displays@
    }

    pub closed spec fn adapter_list(self) -> Seq<GraphicsAdapter> {
        self.adapters@
    }

    pub fn new(displays: Vec<Display>, adapters: Vec<GraphicsAdapter>) -> (result: Result<
        Self,
        DisplayError,
    >)
        ensures
            match result {
                Ok(inventory) => inventory_error(displays@, adapters@) is None
                    && inventory.display_list() == displays@ && inventory.adapter_list()
                    == adapters@,
                Err(error) => inventory_error(displays@, adapters@) == Some(error),
            },
    {
        if displays.len() > MAX_DISPLAYS || adapters.len() > MAX_ADAPTERS {
            return Err(DisplayError::TooManyDevices);
        }
        match check_adapters(&adapters) {
            Some(error) => {
                return Err(error);
            },
            None => {},
        }
        match check_displays(&displays, &adapters) {
            Some(error) => {
                return Err(error);
            },
            None => {},
        }
        Ok(DisplayInventory { displays, adapters })
    }

    /// Checks a catalog.
    pub fn try_from(catalog: DisplayCatalog) -> (result: Result<Self, DisplayError>)
        ensures
            match result {
                Ok(inventory) => inventory_error(catalog.displays@, catalog.adapters@) is None
                    && inventory.display_list() == catalog.displays@ && inventory.adapter_list()
                    == catalog.adapters@,
                Err(error) => inventory_error(catalog.displays@, catalog.adapters@) == Some(error),
            },
    {
        DisplayInventory::new(catalog.displays, catalog.adapters)
    }

    pub fn displays(&self) -> (displays: &[Display])
        ensures
            displays@ == self.display_list(),
            inventory_error(self.display_list(), self.adapter_list()) is None,
    {
        proof {
            use_type_invariant(self);
        }
        self.displays.as_slice()
    }

    pub fn adapters(&self) -> (adapters: &[GraphicsAdapter])
        ensures
            adapters@ == self.adapter_list(),
    {
        self.adapters.as_slice()
    }

    /// The one display that the selection names.
    pub fn resolve(&self, selection: &DisplaySelection) -> (result: Result<&Display, DisplayError>)
        ensures
            match result {
                Ok(display) => exists|i: int|
                    0 <= i < self.display_list().len() && #[trigger] self.display_list()[i]
                        == *display && display.is_selected(*selection) && forall|j: int|
                        0 <= j < self.display_list().len() && j != i
                            ==> !(#[trigger] self.display_list()[j]).is_selected(*selection),
                Err(DisplayError::Unavailable) => forall|i: int|
                    0 <= i < self.display_list().len()
                        ==> !(#[trigger] self.display_list()[i]).is_selected(*selection),
                Err(DisplayError::Ambiguous) => exists|i: int, j: int|
                    #![trigger self.display_list()[i], self.display_list()[j]]
                    0 <= i < j < self.display_list().len()
                        && self.display_list()[i].is_selected(*selection)
                        && self.display_list()[j].is_selected(*selection),
                Err(_) => false,
            },
    {
        let mut found: Option<usize> = None;
        let mut index: usize = 0;
        while index < self.displays.len()
            invariant
                index <= self.displays@.len(),
                match found {
                    Some(at) => at < index && self.displays@[at as int].is_selected(*selection)
                        && forall|j: int|
                        0 <= j < index && j != at ==> !(#[trigger] self.displays@[j]).is_selected(
                            *selection,
                        ),
                    None => forall|j: int|
                        0 <= j < index ==> !(#[trigger] self.displays@[j]).is_selected(*selection),
                },
            decreases self.displays@.len() - index,
        {
            if self.displays[index].matches_selection(selection) {
                match found {
                    Some(at) => {
                        assert(self.display_list()[at as int].is_selected(*selection));
                        assert(self.display_list()[index as int].is_selected(*selection));
                        return Err(DisplayError::Ambiguous);
                    },
                    None => {
                        found = Some(index);
                    },
                }
            }
            index = index + 1;
        }
        match found {
            Some(at) => {
                assert(self.display_list()[at as int] == self.displays@[at as int]);
                Ok(&self.displays[at])
            },
            None => Err(DisplayError::Unavailable),
        }
    }
}

/// An identity names one display at most, so it is never ambiguous, whatever
/// the order of the displays.
pub proof fn law_identities_are_never_ambiguous(
    displays: Seq<Display>,
    adapters: Seq<GraphicsAdapter>,
    id: DisplayId,
    i: int,
    j: int,
)
    requires
        inventory_error(displays, adapters) is None,
        0 <= i < j < displays.len(),
    ensures
        !(displays[i].is_selected(DisplaySelection::Id(id)) && displays[j].is_selected(
            DisplaySelection::Id(id),
        )),
{
    lemma_distinct_identities(displays, adapters, i, j);
}

proof fn lemma_distinct_identities(
    displays: Seq<Display>,
    adapters: Seq<GraphicsAdapter>,
    i: int,
    j: int,
)
    requires
        displays_error(displays, adapters) is None,
        0 <= i < j < displays.len(),
    ensures
        displays[i].id@ != displays[j].id@,
    decreases displays.len(),
{
    if j == displays.len() - 1 {
        assert(displays.drop_last()[i].id@ == displays[i].id@);
    } else {
        lemma_distinct_identities(displays.drop_last(), adapters, i, j);
    }
}

impl Clone for DisplayInventory {
    fn clone(&self) -> (copy: Self)
        ensures
            copy.display_list() == self.display_list(),
            copy.adapter_list() == self.adapter_list(),
    {
        let catalog = DisplayCatalog::from(self);
        DisplayInventory { displays: catalog.displays, adapters: catalog.adapters }
    }
}

impl DisplayCatalog {
    /// The catalog of an inventory.
    pub fn from(inventory: &DisplayInventory) -> (catalog: Self)
        ensures
            catalog.displays@ == inventory.display_list(),
            catalog.adapters@ == inventory.adapter_list(),
            inventory_error(catalog.displays@, catalog.adapters@) is None,
    {
        proof {
            use_type_invariant(inventory);
        }
        let mut displays: Vec<Display> = Vec::new();
        let mut index: usize = 0;
        while index < inventory.displays.len()
            invariant
                index <= inventory.displays@.len(),
                displays@ == inventory.displays@.take(index as int),
            decreases inventory.displays@.len() - index,
        {
            let display = &inventory.displays[index];
            displays.push(
                Display {
                    id: display.id.copied(),
                    name: display.name.clone(),
                    adapter: display.adapter,
                    width: display.width,
                    height: display.height,
                    refresh_rate: display.refresh_rate,
                    primary: display.primary,
                },
            );
            index = index + 1;
            assert(displays@ =~= inventory.displays@.take(index as int));
        }
        let mut adapters: Vec<GraphicsAdapter> = Vec::new();
        let mut at: usize = 0;
        while at < inventory.adapters.len()
            invariant
                at <= inventory.adapters@.len(),
                adapters@ == inventory.adapters@.take(at as int),
            decreases inventory.adapters@.len() - at,
        {
            let adapter = &inventory.adapters[at];
            adapters.push(
                GraphicsAdapter {
                    id: adapter.id,
                    name: adapter.name.clone(),
                    vendor_id: adapter.vendor_id,
                    device_id: adapter.device_id,
                    software: adapter.software,
                },
            );
            at = at + 1;
            assert(adapters@ =~= inventory.adapters@.take(at as int));
        }
        assert(displays@ =~= inventory.displays@);
        assert(adapters@ =~= inventory.adapters@);
        DisplayCatalog { displays, adapters }
    }
}

/// Which inventories are taken: at most 32 displays and 32 adapters, names of
/// at most 512 bytes that can be shown, no identity twice, and each display on
/// an adapter of the list, with a width and a height.
pub proof fn law_which_inventories_are_taken(
    displays: Seq<Display>,
    adapters: Seq<GraphicsAdapter>,
)
    ensures
        inventory_error(displays, adapters) is None ==> displays.len() <= 32 && adapters.len()
            <= 32,
        inventory_error(displays, adapters) == Some(DisplayError::TooManyDevices)
            <==> displays.len() > 32 || adapters.len() > 32,
        inventory_error(displays, adapters) is None <==> {
            &&& displays.len() <= 32
            &&& adapters.len() <= 32
            &&& forall|i: int|
                0 <= i < adapters.len() ==> vstd::utf8::encode_utf8(
                    (#[trigger] adapters[i]).name@,
                ).len() <= 512 && text::is_printable(adapters[i].name@)
            &&& forall|i: int, j: int|
                0 <= i < j < adapters.len() ==> (#[trigger] adapters[i]).id != (
                #[trigger] adapters[j]).id
            &&& forall|i: int|
                0 <= i < displays.len() ==> vstd::utf8::encode_utf8(
                    (#[trigger] displays[i]).name@,
                ).len() <= 512 && text::is_printable(displays[i].name@) && displays[i].width > 0
                    && displays[i].height > 0 && is_on_an_adapter(displays[i], adapters)
            &&& forall|i: int, j: int|
                0 <= i < j < displays.len() ==> (#[trigger] displays[i]).id@ != (
                #[trigger] displays[j]).id@
        },
{
    lemma_clean_adapters(adapters);
    lemma_clean_displays(displays, adapters);
}

/// The adapter of the display is one of the list.
pub open spec fn is_on_an_adapter(display: Display, adapters: Seq<GraphicsAdapter>) -> bool {
    exists|k: int| 0 <= k < adapters.len() && (#[trigger] adapters[k]).id == display.adapter
}

proof fn lemma_clean_adapters(adapters: Seq<GraphicsAdapter>)
    ensures
        adapters_error(adapters) != Some(DisplayError::TooManyDevices),
        adapters_error(adapters) is None <==> {
            &&& forall|i: int|
                0 <= i < adapters.len() ==> vstd::utf8::encode_utf8(
                    (#[trigger] adapters[i]).name@,
                ).len() <= 512 && text::is_printable(adapters[i].name@)
            &&& forall|i: int, j: int|
                0 <= i < j < adapters.len() ==> (#[trigger] adapters[i]).id != (
                #[trigger] adapters[j]).id
        },
    decreases adapters.len(),
{
    if adapters.len() > 0 {
        let shorter = adapters.drop_last();
        let last = adapters.len() - 1;
        lemma_clean_adapters(shorter);
        assert(adapters[last] == adapters.last());
        assert forall|i: int| 0 <= i < shorter.len() implies shorter[i] == #[trigger] adapters[
            i
        ] by {}
        if adapters_error(shorter) is Some {
            if forall|i: int|
                0 <= i < shorter.len() ==> vstd::utf8::encode_utf8(
                    (#[trigger] shorter[i]).name@,
                ).len() <= 512 && text::is_printable(shorter[i].name@) {
                let (i, j) = choose|i: int, j: int|
                    0 <= i < j < shorter.len() && (#[trigger] shorter[i]).id == (
                    #[trigger] shorter[j]).id;
                assert(adapters[i].id == adapters[j].id);
            } else {
                let i = choose|i: int|
                    0 <= i < shorter.len() && !(vstd::utf8::encode_utf8(
                        (#[trigger] shorter[i]).name@,
                    ).len() <= 512 && text::is_printable(shorter[i].name@));
                assert(adapters[i] == shorter[i]);
            }
        } else if has_adapter(shorter, adapters.last().id) {
            let i = choose|i: int|
                0 <= i < shorter.len() && (#[trigger] shorter[i]).id == adapters.last().id;
            assert(adapters[i].id == adapters[last].id);
        } else {
            assert forall|i: int, j: int| 0 <= i < j < adapters.len() implies (
            #[trigger] adapters[i]).id != (#[trigger] adapters[j]).id by {
                assert(shorter[i] == adapters[i]);
                if j < last {
                    assert(shorter[j] == adapters[j]);
                }
            }
        }
    }
}

proof fn lemma_clean_displays(displays: Seq<Display>, adapters: Seq<GraphicsAdapter>)
    ensures
        displays_error(displays, adapters) != Some(DisplayError::TooManyDevices),
        displays_error(displays, adapters) is None <==> {
            &&& forall|i: int|
                0 <= i < displays.len() ==> vstd::utf8::encode_utf8(
                    (#[trigger] displays[i]).name@,
                ).len() <= 512 && text::is_printable(displays[i].name@) && displays[i].width > 0
                    && displays[i].height > 0 && is_on_an_adapter(displays[i], adapters)
            &&& forall|i: int, j: int|
                0 <= i < j < displays.len() ==> (#[trigger] displays[i]).id@ != (
                #[trigger] displays[j]).id@
        },
    decreases displays.len(),
{
    if displays.len() > 0 {
        let shorter = displays.drop_last();
        let last = displays.len() - 1;
        lemma_clean_displays(shorter, adapters);
        assert(displays[last] == displays.last());
        assert forall|i: int| 0 <= i < shorter.len() implies shorter[i] == #[trigger] displays[
            i
        ] by {}
        assert(has_adapter(adapters, displays.last().adapter) <==> is_on_an_adapter(
            displays.last(),
            adapters,
        ));
        if displays_error(shorter, adapters) is Some {
            if forall|i: int|
                0 <= i < shorter.len() ==> vstd::utf8::encode_utf8(
                    (#[trigger] shorter[i]).name@,
                ).len() <= 512 && text::is_printable(shorter[i].name@) && shorter[i].width > 0
                    && shorter[i].height > 0 && is_on_an_adapter(shorter[i], adapters) {
                let (i, j) = choose|i: int, j: int|
                    0 <= i < j < shorter.len() && (#[trigger] shorter[i]).id@ == (
                    #[trigger] shorter[j]).id@;
                assert(displays[i].id@ == displays[j].id@);
            } else {
                let i = choose|i: int|
                    0 <= i < shorter.len() && !(vstd::utf8::encode_utf8(
                        (#[trigger] shorter[i]).name@,
                    ).len() <= 512 && text::is_printable(shorter[i].name@) && shorter[i].width > 0
                        && shorter[i].height > 0 && is_on_an_adapter(shorter[i], adapters));
                assert(displays[i] == shorter[i]);
            }
        } else if has_display(shorter, displays.last().id@) {
            let i = choose|i: int|
                0 <= i < shorter.len() && (#[trigger] shorter[i]).id@ == displays.last().id@;
            assert(displays[i].id@ == displays[last].id@);
        } else {
            assert forall|i: int, j: int| 0 <= i < j < displays.len() implies (
            #[trigger] displays[i]).id@ != (#[trigger] displays[j]).id@ by {
                assert(shorter[i] == displays[i]);
                if j < last {
                    assert(shorter[j] == displays[j]);
                }
            }
        }
    }
}

/// The primary selection is of the displays that are primary, any other of the
/// display with that identity.
pub proof fn law_what_a_selection_selects(display: Display, id: DisplayId)
    ensures
        display.is_selected(DisplaySelection::Primary) <==> display.primary,
        display.is_selected(DisplaySelection::Id(id)) <==> display.id@ == id@,
{
}

} // verus!
