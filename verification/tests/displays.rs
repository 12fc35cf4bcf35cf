//! The displays of a host.

use rustconsole::protocol::display::{
    AdapterId, Display, DisplayCatalog, DisplayError, DisplayId, DisplayInventory,
    DisplaySelection, GraphicsAdapter, MAX_DISPLAY_ID_BYTES,
};

#[test]
fn identity_survives_reordering_and_resolves_the_current_adapter() {
    let adapter = |id| GraphicsAdapter {
        id: AdapterId(id),
        name: "GPU".into(),
        vendor_id: 0,
        device_id: 0,
        software: false,
    };
    let display = |id: &str, gpu, primary| Display {
        id: DisplayId::new(id.into()).unwrap(),
        name: id.into(),
        adapter: AdapterId(gpu),
        width: 1920,
        height: 1080,
        refresh_rate: 60,
        primary,
    };
    let selection = DisplaySelection::Id(DisplayId::new("panel".into()).unwrap());
    let before = DisplayInventory::new(
        vec![display("panel", 1, true), display("virtual", 2, false)],
        vec![adapter(1), adapter(2)],
    )
    .unwrap();
    let after = DisplayInventory::new(
        vec![display("virtual", 2, true), display("panel", 2, false)],
        vec![adapter(2)],
    )
    .unwrap();
    assert_eq!(before.resolve(&selection).unwrap().adapter, AdapterId(1));
    assert_eq!(after.resolve(&selection).unwrap().adapter, AdapterId(2));
    let missing = DisplaySelection::Id(DisplayId::new("removed".into()).unwrap());
    assert_eq!(after.resolve(&missing), Err(DisplayError::Unavailable));
    assert_eq!(
        after
            .resolve(&DisplaySelection::Primary)
            .unwrap()
            .id
            .as_str(),
        "virtual"
    );
    let catalog = DisplayCatalog::from(&after);
    assert_eq!(DisplayInventory::try_from(catalog.clone()).unwrap(), after);
    let mut missing_adapter = catalog;
    missing_adapter.adapters.clear();
    assert_eq!(
        DisplayInventory::try_from(missing_adapter),
        Err(DisplayError::MissingAdapter)
    );
}

#[test]
fn rejects_invalid_and_unbounded_identifiers() {
    for id in [
        String::new(),
        "bad\0id".into(),
        "x".repeat(MAX_DISPLAY_ID_BYTES + 1),
    ] {
        assert_eq!(DisplayId::new(id), Err(DisplayError::InvalidIdentity));
    }
}
