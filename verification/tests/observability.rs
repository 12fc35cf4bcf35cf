//! The names of trace fields.

use rustconsole::session::observability::all;
use std::collections::BTreeSet;

#[test]
fn trace_field_names_are_unique_and_machine_friendly() {
    let names = all();
    let unique = names.iter().copied().collect::<BTreeSet<_>>();

    assert_eq!(unique.len(), names.len());
    assert!(names.into_iter().all(|field| {
        !field.is_empty()
            && field
                .bytes()
                .all(|byte| byte.is_ascii_lowercase() || byte == b'_')
    }));
}
