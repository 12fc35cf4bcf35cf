//! Canonical field names for structured session traces.

use vstd::prelude::*;

verus! {

pub const SESSION_ID: &'static str = "session_id";

pub const CONNECTION_ID: &'static str = "connection_id";

pub const SIDE: &'static str = "side";

pub const PHASE: &'static str = "phase";

pub const CHANNEL: &'static str = "channel";

pub const STAGE: &'static str = "stage";

pub const QUEUE: &'static str = "queue";

pub const FRAME_SEQUENCE: &'static str = "frame_sequence";

pub const PACKET_SEQUENCE: &'static str = "packet_sequence";

pub const DURATION_MICROS: &'static str = "duration_micros";

pub const QUEUE_RESIDENCE_MICROS: &'static str = "queue_residence_micros";

pub const SIZE_BYTES: &'static str = "size_bytes";

pub const REASON: &'static str = "reason";

pub const ERROR: &'static str = "error";

/// Every field name.
pub open spec fn spec_all() -> Seq<Seq<char>> {
    seq![
        SESSION_ID@,
        CONNECTION_ID@,
        SIDE@,
        PHASE@,
        CHANNEL@,
        STAGE@,
        QUEUE@,
        FRAME_SEQUENCE@,
        PACKET_SEQUENCE@,
        DURATION_MICROS@,
        QUEUE_RESIDENCE_MICROS@,
        SIZE_BYTES@,
        REASON@,
        ERROR@,
    ]
}

/// Every field name.
pub fn all() -> (names: Vec<&'static str>)
    ensures
        names@.map_values(|name: &'static str| name@) == spec_all(),
{
    let names: Vec<&'static str> = vec![
        SESSION_ID,
        CONNECTION_ID,
        SIDE,
        PHASE,
        CHANNEL,
        STAGE,
        QUEUE,
        FRAME_SEQUENCE,
        PACKET_SEQUENCE,
        DURATION_MICROS,
        QUEUE_RESIDENCE_MICROS,
        SIZE_BYTES,
        REASON,
        ERROR,
    ];
    assert(names@.map_values(|name: &'static str| name@) =~= spec_all());
    names
}

/// Lower-case letters and underscores.
pub open spec fn is_machine_friendly(name: Seq<char>) -> bool {
    name.len() > 0 && forall|i: int|
        0 <= i < name.len() ==> ('a' <= #[trigger] name[i] && name[i] <= 'z') || name[i] == '_'
}

/// Field names are unique and machine-friendly.
pub proof fn law_trace_names_are_unique_and_machine_friendly()
    ensures
        spec_all().no_duplicates(),
        forall|i: int| 0 <= i < spec_all().len() ==> is_machine_friendly(#[trigger] spec_all()[i]),
{
    reveal_strlit("session_id");
    reveal_strlit("connection_id");
    reveal_strlit("side");
    reveal_strlit("phase");
    reveal_strlit("channel");
    reveal_strlit("stage");
    reveal_strlit("queue");
    reveal_strlit("frame_sequence");
    reveal_strlit("packet_sequence");
    reveal_strlit("duration_micros");
    reveal_strlit("queue_residence_micros");
    reveal_strlit("size_bytes");
    reveal_strlit("reason");
    reveal_strlit("error");
    let names = spec_all();
    assert(names[0][1] != names[11][1]);
    assert(names[3][0] != names[5][0]);
    assert(names[3][0] != names[6][0]);
    assert(names[3][0] != names[13][0]);
    assert(names[5][0] != names[6][0]);
    assert(names[5][0] != names[13][0]);
    assert(names[6][0] != names[13][0]);
    assert(names[8][0] != names[9][0]);
    assert forall|i: int| 0 <= i < names.len() implies is_machine_friendly(#[trigger] names[i]) by {
    }
}

} // verus!
