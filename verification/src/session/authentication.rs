//! Password enrollment and connection-bound authentication.

use crate::bytes;
use crate::bytes::{array32, get_be, owned, owned_range, same};
use crate::digest;
use crate::digest::sha256;
use crate::session::opaque;
use crate::session::opaque::{
    CREDENTIAL_FINALIZATION_SIZE, CREDENTIAL_REQUEST_SIZE, CREDENTIAL_RESPONSE_SIZE,
    SERVER_LOGIN_SIZE, accept_login, answer_login, answer_registration, finish_login,
    finish_registration, new_setup, random_bytes, reads_response, register, restore_password_file,
    restore_setup, start_login, start_registration, system_random,
};
use crate::secret::Secret;
use crate::text;
use opaque_ke::rand::{CryptoRng, RngCore};
use vstd::prelude::*;

verus! {

pub const TLS_EXPORTER_SIZE: usize = 64;

pub const MAX_CREDENTIAL_IDENTIFIER_SIZE: usize = 255;

pub const HOST_IDENTITY_SIZE: usize = 32;

pub const RECORD_VERSION: u16 = 2;

/// The bytes of a record that stand before the credential identifier.
pub const RECORD_HEADER_SIZE: usize = 48;

#[derive(Clone, Copy, Debug, PartialEq, Eq, Structural)]
pub enum AuthenticationError {
    EmptyPassword,
    InvalidCredentialIdentifier,
    InvalidHostIdentity,
    InvalidMessage,
    InvalidRecord,
    UnsupportedRecordVersion(u16),
    AuthenticationFailed,
    OpaqueProtocol,
}

/// `rustconsole-default`.
pub open spec fn spec_default_credential_identifier() -> Seq<u8> {
    seq![
        0x72, 0x75, 0x73, 0x74, 0x63, 0x6f, 0x6e, 0x73, 0x6f, 0x6c, 0x65, 0x2d, 0x64, 0x65, 0x66,
        0x61, 0x75, 0x6c, 0x74,
    ]
}

/// The identifier that a record gets when it is first enrolled.
pub fn default_credential_identifier() -> (identifier: Vec<u8>)
    ensures
        identifier@ == spec_default_credential_identifier(),
{
    let identifier: Vec<u8> = vec![
        0x72, 0x75, 0x73, 0x74, 0x63, 0x6f, 0x6e, 0x73, 0x6f, 0x6c, 0x65, 0x2d, 0x64, 0x65, 0x66,
        0x61, 0x75, 0x6c, 0x74,
    ];
    assert(identifier@ =~= spec_default_credential_identifier());
    identifier
}

/// `EXPORTER-RustConsole-OPAQUE-v1`.
pub open spec fn spec_tls_exporter_label() -> Seq<u8> {
    seq![
        0x45, 0x58, 0x50, 0x4f, 0x52, 0x54, 0x45, 0x52, 0x2d, 0x52, 0x75, 0x73, 0x74, 0x43, 0x6f,
        0x6e, 0x73, 0x6f, 0x6c, 0x65, 0x2d, 0x4f, 0x50, 0x41, 0x51, 0x55, 0x45, 0x2d, 0x76, 0x31,
    ]
}

/// The label under which both ends export the connection binding from TLS.
pub fn tls_exporter_label() -> (label: Vec<u8>)
    ensures
        label@ == spec_tls_exporter_label(),
{
    let label: Vec<u8> = vec![
        0x45, 0x58, 0x50, 0x4f, 0x52, 0x54, 0x45, 0x52, 0x2d, 0x52, 0x75, 0x73, 0x74, 0x43, 0x6f,
        0x6e, 0x73, 0x6f, 0x6c, 0x65, 0x2d, 0x4f, 0x50, 0x41, 0x51, 0x55, 0x45, 0x2d, 0x76, 0x31,
    ];
    assert(label@ =~= spec_tls_exporter_label());
    label
}

/// `RustConsole authenticated session v1`.
pub open spec fn session_identity_label() -> Seq<u8> {
    seq![
        0x52, 0x75, 0x73, 0x74, 0x43, 0x6f, 0x6e, 0x73, 0x6f, 0x6c, 0x65, 0x20, 0x61, 0x75, 0x74,
        0x68, 0x65, 0x6e, 0x74, 0x69, 0x63, 0x61, 0x74, 0x65, 0x64, 0x20, 0x73, 0x65, 0x73, 0x73,
        0x69, 0x6f, 0x6e, 0x20, 0x76, 0x31,
    ]
}

/// `RustConsole host`.
pub open spec fn server_identifier() -> Seq<u8> {
    seq![
        0x52, 0x75, 0x73, 0x74, 0x43, 0x6f, 0x6e, 0x73, 0x6f, 0x6c, 0x65, 0x20, 0x68, 0x6f, 0x73,
        0x74,
    ]
}

/// `RustConsole viewer`.
pub open spec fn client_identifier() -> Seq<u8> {
    seq![
        0x52, 0x75, 0x73, 0x74, 0x43, 0x6f, 0x6e, 0x73, 0x6f, 0x6c, 0x65, 0x20, 0x76, 0x69, 0x65,
        0x77, 0x65, 0x72,
    ]
}

/// The names under which both ends take part in the exchange: the viewer's, then
/// the host's.
fn identifiers() -> (names: (Vec<u8>, Vec<u8>))
    ensures
        names.0@ == client_identifier(),
        names.1@ == server_identifier(),
{
    let client: Vec<u8> = vec![
        0x52, 0x75, 0x73, 0x74, 0x43, 0x6f, 0x6e, 0x73, 0x6f, 0x6c, 0x65, 0x20, 0x76, 0x69, 0x65,
        0x77, 0x65, 0x72,
    ];
    let server: Vec<u8> = vec![
        0x52, 0x75, 0x73, 0x74, 0x43, 0x6f, 0x6e, 0x73, 0x6f, 0x6c, 0x65, 0x20, 0x68, 0x6f, 0x73,
        0x74,
    ];
    assert(client@ =~= client_identifier());
    assert(server@ =~= server_identifier());
    (client, server)
}

/// `RCOPAQUE`.
pub open spec fn record_magic() -> Seq<u8> {
    seq![0x52, 0x43, 0x4f, 0x50, 0x41, 0x51, 0x55, 0x45]
}

/// What a host is known by, whatever its password.
#[derive(Clone, Copy, Debug, PartialEq, Eq)]
pub struct HostIdentity([u8; HOST_IDENTITY_SIZE]);

impl View for HostIdentity {
    type V = Seq<u8>;

    closed spec fn view(&self) -> Seq<u8> {
        self.0@
    }
}

impl HostIdentity {
    /// The identity that `bytes` are.
    pub fn from_bytes(bytes: &[u8]) -> (result: Result<Self, AuthenticationError>)
        ensures
            match result {
                Ok(identity) => bytes@.len() == HOST_IDENTITY_SIZE && identity@ == bytes@,
                Err(error) => bytes@.len() != HOST_IDENTITY_SIZE && error
                    == AuthenticationError::InvalidHostIdentity,
            },
    {
        if bytes.len() != HOST_IDENTITY_SIZE {
            return Err(AuthenticationError::InvalidHostIdentity);
        }
        let array = array32(bytes, 0);
        assert(array@ =~= bytes@);
        Ok(HostIdentity(array))
    }

    /// An identity has its 32 bytes.
    pub proof fn lemma_size(self)
        ensures
            self@.len() == HOST_IDENTITY_SIZE,
    {
    }

    #[must_use]
    pub fn as_bytes(&self) -> (bytes: &[u8; HOST_IDENTITY_SIZE])
        ensures
            bytes@ == self@,
    {
        &self.0
    }

    /// Whether both are one host.
    pub fn same_as(&self, other: &HostIdentity) -> (result: bool)
        ensures
            result == (self@ == other@),
    {
        same(self.0.as_slice(), other.0.as_slice())
    }
}

/// What both ends of an authenticated connection agree on.
#[derive(Clone, Copy, Debug, PartialEq, Eq)]
pub struct SessionIdentity([u8; 32]);

impl View for SessionIdentity {
    type V = Seq<u8>;

    closed spec fn view(&self) -> Seq<u8> {
        self.0@
    }
}

impl SessionIdentity {
    #[must_use]
    pub fn as_bytes(&self) -> (bytes: &[u8; 32])
        ensures
            bytes@ == self@,
    {
        &self.0
    }
}

/// What a host stores of its password: the OPAQUE server setup and password
/// file in their serialised form, under a credential identifier.
#[derive(Clone)]
pub struct OpaqueServerRecord {
    setup: Vec<u8>,
    password_file: Vec<u8>,
    credential_identifier: Vec<u8>,
    host_identity: HostIdentity,
}

/// The contents of an [`OpaqueServerRecord`].
#[verifier::ext_equal]
pub struct RecordModel {
    pub setup: Seq<u8>,
    pub password_file: Seq<u8>,
    pub credential_identifier: Seq<u8>,
    pub host_identity: Seq<u8>,
}

impl View for OpaqueServerRecord {
    type V = RecordModel;

    closed spec fn view(&self) -> RecordModel {
        RecordModel {
            setup: self.setup@,
            password_file: self.password_file@,
            credential_identifier: self.credential_identifier@,
            host_identity: self.host_identity@,
        }
    }
}

pub open spec fn is_credential_identifier(identifier: Seq<u8>) -> bool {
    0 < identifier.len() <= MAX_CREDENTIAL_IDENTIFIER_SIZE
}

impl RecordModel {
    /// A record whose parts fit the lengths that stand before them.
    pub open spec fn valid(self) -> bool {
        &&& is_credential_identifier(self.credential_identifier)
        &&& self.setup.len() <= u16::MAX
        &&& self.password_file.len() <= u16::MAX
        &&& self.host_identity.len() == HOST_IDENTITY_SIZE
    }

    /// OPAQUE reads the parts of the record back as they are.
    pub open spec fn is_restorable(self) -> bool {
        &&& opaque::setup_of(self.setup) == Some(self.setup)
        &&& opaque::password_file_of(self.password_file) == Some(self.password_file)
    }

    /// The stored form: magic, version, three lengths, the host's identity, and
    /// the three parts.
    pub open spec fn stored(self) -> Seq<u8> {
        record_magic() + bytes::words2(
            seq![
                RECORD_VERSION,
                self.credential_identifier.len() as u16,
                self.setup.len() as u16,
                self.password_file.len() as u16,
            ],
        ) + self.host_identity + self.credential_identifier + self.setup + self.password_file
    }
}

/// The two-byte integer at `start`.
pub open spec fn word_at(stored: Seq<u8>, start: int) -> nat {
    bytes::be_value(stored.subrange(start, start + 2))
}

/// The parts of the record that `stored` holds.
pub open spec fn record_in(stored: Seq<u8>) -> Result<RecordModel, AuthenticationError> {
    if stored.len() < RECORD_HEADER_SIZE || stored.take(8) != record_magic() {
        Err(AuthenticationError::InvalidRecord)
    } else if word_at(stored, 8) != RECORD_VERSION {
        Err(AuthenticationError::UnsupportedRecordVersion(word_at(stored, 8) as u16))
    } else {
        let identifier_end = RECORD_HEADER_SIZE + word_at(stored, 10);
        let setup_end = identifier_end + word_at(stored, 12);
        let end = setup_end + word_at(stored, 14);
        if !(0 < word_at(stored, 10) <= MAX_CREDENTIAL_IDENTIFIER_SIZE) || stored.len() != end {
            Err(AuthenticationError::InvalidRecord)
        } else {
            Ok(
                RecordModel {
                    host_identity: stored.subrange(16, RECORD_HEADER_SIZE as int),
                    credential_identifier: stored.subrange(
                        RECORD_HEADER_SIZE as int,
                        identifier_end,
                    ),
                    setup: stored.subrange(identifier_end, setup_end),
                    password_file: stored.subrange(setup_end, end),
                },
            )
        }
    }
}

/// The record that `stored` holds, with its OPAQUE parts as OPAQUE reads them.
pub open spec fn restored(stored: Seq<u8>) -> Result<RecordModel, AuthenticationError> {
    match record_in(stored) {
        Err(error) => Err(error),
        Ok(parts) => match (
            opaque::setup_of(parts.setup),
            opaque::password_file_of(parts.password_file),
        ) {
            (Some(setup), Some(password_file)) => Ok(
                RecordModel { setup, password_file, ..parts },
            ),
            _ => Err(AuthenticationError::OpaqueProtocol),
        },
    }
}

fn put_magic(out: &mut Vec<u8>)
    ensures
        final(out)@ == old(out)@ + record_magic(),
{
    let magic: Vec<u8> = vec![0x52, 0x43, 0x4f, 0x50, 0x41, 0x51, 0x55, 0x45];
    assert(magic@ =~= record_magic());
    out.extend_from_slice(magic.as_slice());
}

fn has_magic(stored: &[u8]) -> (result: bool)
    requires
        stored@.len() >= 8,
    ensures
        result == (stored@.take(8) == record_magic()),
{
    let mut magic: Vec<u8> = Vec::new();
    put_magic(&mut magic);
    let start = owned_range(stored, 0, 8);
    assert(start@ =~= stored@.take(8));
    assert(magic@ =~= record_magic());
    same(start.as_slice(), magic.as_slice())
}

impl OpaqueServerRecord {
    #[must_use]
    pub fn host_identity(&self) -> (identity: HostIdentity)
        ensures
            identity@ == self@.host_identity,
    {
        self.host_identity
    }

    /// The serialised OPAQUE server setup.
    pub fn setup(&self) -> (setup: &[u8])
        ensures
            setup@ == self@.setup,
    {
        self.setup.as_slice()
    }

    /// The stored form of the record.
    #[must_use]
    pub fn serialize(&self) -> (stored: Vec<u8>)
        requires
            self@.valid(),
        ensures
            stored@ == self@.stored(),
    {
        let words: Vec<u16> = vec![
            RECORD_VERSION,
            self.credential_identifier.len() as u16,
            self.setup.len() as u16,
            self.password_file.len() as u16,
        ];
        let mut out: Vec<u8> = Vec::new();
        put_magic(&mut out);
        bytes::put_words2(&mut out, &words);
        out.extend_from_slice(self.host_identity.0.as_slice());
        out.extend_from_slice(self.credential_identifier.as_slice());
        out.extend_from_slice(self.setup.as_slice());
        out.extend_from_slice(self.password_file.as_slice());
        assert(words@ =~= seq![
            RECORD_VERSION,
            self@.credential_identifier.len() as u16,
            self@.setup.len() as u16,
            self@.password_file.len() as u16,
        ]);
        assert(out@ =~= self@.stored());
        out
    }

    /// The record that `stored` holds.
    pub fn deserialize(stored: &[u8]) -> (result: Result<Self, AuthenticationError>)
        ensures
            match result {
                Ok(record) => restored(stored@) == Ok::<_, AuthenticationError>(record@)
                    && record@.valid(),
                Err(error) => restored(stored@) == Err::<RecordModel, _>(error),
            },
    {
        if stored.len() < RECORD_HEADER_SIZE || !has_magic(stored) {
            return Err(AuthenticationError::InvalidRecord);
        }
        proof {
            bytes::lemma_be_bounds();
        }
        let version = get_be(stored, 8, 2);
        if version != RECORD_VERSION as u64 {
            return Err(AuthenticationError::UnsupportedRecordVersion(version as u16));
        }
        let identifier_size: usize = get_be(stored, 10, 2) as usize;
        let setup_size: usize = get_be(stored, 12, 2) as usize;
        let password_file_size: usize = get_be(stored, 14, 2) as usize;
        if identifier_size == 0 || identifier_size > MAX_CREDENTIAL_IDENTIFIER_SIZE {
            return Err(AuthenticationError::InvalidRecord);
        }
        let identifier_end: usize = RECORD_HEADER_SIZE + identifier_size;
        let setup_end: usize = identifier_end + setup_size;
        let end: usize = setup_end + password_file_size;
        if stored.len() != end {
            return Err(AuthenticationError::InvalidRecord);
        }
        let host_identity = array32(stored, 16);
        assert(host_identity@ =~= stored@.subrange(16, 48));
        let stored_setup = owned_range(stored, identifier_end, setup_end);
        let stored_password_file = owned_range(stored, setup_end, end);
        let setup = match restore_setup(stored_setup.as_slice()) {
            Some(setup) => setup,
            None => return Err(AuthenticationError::OpaqueProtocol),
        };
        let password_file = match restore_password_file(stored_password_file.as_slice()) {
            Some(password_file) => password_file,
            None => return Err(AuthenticationError::OpaqueProtocol),
        };
        Ok(
            OpaqueServerRecord {
                setup,
                password_file,
                credential_identifier: owned_range(stored, RECORD_HEADER_SIZE, identifier_end),
                host_identity: HostIdentity(host_identity),
            },
        )
    }

    /// The password file to answer a request for `identifier` with. An unknown
    /// identifier gets none, and the exchange goes on with a dummy.
    pub fn password_file_for(&self, identifier: &[u8]) -> (password_file: Option<&[u8]>)
        ensures
            match password_file {
                Some(file) => identifier@ == self@.credential_identifier && file@
                    == self@.password_file,
                None => identifier@ != self@.credential_identifier,
            },
    {
        if same(identifier, self.credential_identifier.as_slice()) {
            Some(self.password_file.as_slice())
        } else {
            None
        }
    }
}

/// What an enrollment keeps of an earlier record, and what it has to make new.
pub struct EnrollmentPlan {
    /// The server setup to keep; a new one is made where there is none.
    pub setup: Option<Vec<u8>>,
    pub credential_identifier: Vec<u8>,
    /// The identity to keep; a random one is made where there is none.
    pub host_identity: Option<HostIdentity>,
}

/// The record after enrollment of a password whose new password file is
/// `password_file`: a record that stood before keeps everything else, and a
/// first one takes `setup` and `host_identity`, which were made for it.
pub open spec fn enrolled(
    previous: Option<RecordModel>,
    setup: Seq<u8>,
    host_identity: Seq<u8>,
    password_file: Seq<u8>,
) -> RecordModel {
    match previous {
        Some(record) => RecordModel { password_file, ..record },
        None => RecordModel {
            setup,
            password_file,
            credential_identifier: spec_default_credential_identifier(),
            host_identity,
        },
    }
}

impl EnrollmentPlan {
    /// Whether this is the plan for a password in place of the one of `previous`.
    pub open spec fn is_for(self, previous: Option<RecordModel>) -> bool {
        match previous {
            Some(record) => {
                &&& self.setup is Some
                &&& self.setup->0@ == record.setup
                &&& self.credential_identifier@ == record.credential_identifier
                &&& self.host_identity is Some
                &&& self.host_identity->0@ == record.host_identity
            },
            None => {
                &&& self.setup is None
                &&& self.credential_identifier@ == spec_default_credential_identifier()
                &&& self.host_identity is None
            },
        }
    }

    /// The record of the password whose OPAQUE registration gave `password_file`.
    /// `setup` and `host_identity` were made for it; they are used where the
    /// plan keeps none.
    pub fn complete(
        self,
        setup: Vec<u8>,
        host_identity: HostIdentity,
        password_file: Vec<u8>,
    ) -> (record: OpaqueServerRecord)
        ensures
            forall|previous: Option<RecordModel>| #[trigger]
                self.is_for(previous) ==> record@ == enrolled(
                    previous,
                    setup@,
                    host_identity@,
                    password_file@,
                ),
    {
        let record = OpaqueServerRecord {
            setup: match self.setup {
                Some(kept) => kept,
                None => setup,
            },
            password_file,
            credential_identifier: self.credential_identifier,
            host_identity: match self.host_identity {
                Some(kept) => kept,
                None => host_identity,
            },
        };
        assert forall|previous: Option<RecordModel>| #[trigger] self.is_for(previous) implies record@
            == enrolled(previous, setup@, host_identity@, password_file@) by {
            assert(record@ =~= enrolled(previous, setup@, host_identity@, password_file@));
        }
        record
    }
}

/// What to do to enroll `password`, in place of the one of `previous` if there
/// is a record already.
pub fn plan_enrollment(previous: Option<&OpaqueServerRecord>, password: &[u8]) -> (result: Result<
    EnrollmentPlan,
    AuthenticationError,
>)
    ensures
        match result {
            Ok(plan) => password@.len() > 0 && plan.is_for(
                match previous {
                    Some(record) => Some(record@),
                    None => None,
                },
            ),
            Err(error) => password@.len() == 0 && error == AuthenticationError::EmptyPassword,
        },
{
    if password.len() == 0 {
        return Err(AuthenticationError::EmptyPassword);
    }
    Ok(
        match previous {
            Some(record) => EnrollmentPlan {
                setup: Some(owned(record.setup.as_slice())),
                credential_identifier: owned(record.credential_identifier.as_slice()),
                host_identity: Some(record.host_identity),
            },
            None => EnrollmentPlan {
                setup: None,
                credential_identifier: default_credential_identifier(),
                host_identity: None,
            },
        },
    )
}

/// The password file of `record` may come of enrolling `password` under its setup
/// and its credential identifier.
pub open spec fn may_be_enrolled(password: Seq<u8>, record: RecordModel) -> bool {
    exists|request: Seq<u8>, state: Seq<u8>, response: Seq<u8>, upload: Seq<u8>|
        #![trigger
            opaque::registration_started(password, Some((request, state))),
            opaque::registration_finished(
                state,
                password,
                response,
                client_identifier(),
                server_identifier(),
                Some(upload),
            )]
        {
            &&& opaque::registration_started(password, Some((request, state)))
            &&& opaque::registration_answer(record.setup, request, record.credential_identifier)
                == Some(response)
            &&& opaque::registration_finished(
                state,
                password,
                response,
                client_identifier(),
                server_identifier(),
                Some(upload),
            )
            &&& opaque::registered(upload) == Some(record.password_file)
        }
}

/// Enrolling `password` under this setup and this credential identifier may fail:
/// OPAQUE may not start it, refuses the request that it starts with, or may not
/// finish it.
pub open spec fn may_fail_to_enroll(
    password: Seq<u8>,
    setup: Seq<u8>,
    credential_identifier: Seq<u8>,
) -> bool {
    ||| opaque::registration_started(password, None)
    ||| exists|request: Seq<u8>, state: Seq<u8>|
        {
            &&& #[trigger] opaque::registration_started(password, Some((request, state)))
            &&& match opaque::registration_answer(setup, request, credential_identifier) {
                Some(response) => opaque::registration_finished(
                    state,
                    password,
                    response,
                    client_identifier(),
                    server_identifier(),
                    None,
                ),
                None => true,
            }
        }
}

/// The password file that enrolling `password` gives, if OPAQUE goes through.
fn register_password<Random: CryptoRng + RngCore>(
    random: &mut Random,
    setup: &[u8],
    credential_identifier: &[u8],
    password: &[u8],
) -> (password_file: Option<Vec<u8>>)
    ensures
        match password_file {
            Some(file) => {
                &&& file@.len() == opaque::PASSWORD_FILE_SIZE
                &&& opaque::password_file_of(file@) == Some(file@)
                &&& forall|record: RecordModel|
                    record.setup == setup@ && record.credential_identifier
                        == credential_identifier@ && record.password_file
                        == file@ ==> #[trigger] may_be_enrolled(password@, record)
            },
            None => may_fail_to_enroll(password@, setup@, credential_identifier@),
        },
{
    let (request, state) = match start_registration(random, password) {
        Some((request, state)) => (request, Secret::new(state)),
        None => return None,
    };
    let ghost first = state@;
    let response = match answer_registration(setup, request.as_slice(), credential_identifier) {
        Some(response) => response,
        None => return None,
    };
    let (client, server) = identifiers();
    let upload = finish_registration(
        random,
        state.as_slice(),
        password,
        response.as_slice(),
        client.as_slice(),
        server.as_slice(),
    );
    match upload {
        Some(upload) => {
            let password_file = register(upload.as_slice());
            let ghost found = password_file;
            proof {
                if let Some(file) = found {
                    assert forall|record: RecordModel|
                        record.setup == setup@ && record.credential_identifier
                            == credential_identifier@ && record.password_file
                            == file@ implies #[trigger] may_be_enrolled(password@, record) by {
                        assert(opaque::registration_started(password@, Some((request@, first))));
                        assert(opaque::registration_finished(
                            first,
                            password@,
                            response@,
                            client_identifier(),
                            server_identifier(),
                            Some(upload@),
                        ));
                    }
                }
            }
            password_file
        },
        None => None,
    }
}

/// A record that was there, as its contents.
pub open spec fn record_model(record: Option<&OpaqueServerRecord>) -> Option<RecordModel> {
    match record {
        Some(record) => Some(record@),
        None => None,
    }
}

/// `record` may come of enrolling `password`: what stood before is kept, what did
/// not is made, and the password file is one of this password.
pub open spec fn is_enrollment(
    previous: Option<RecordModel>,
    password: Seq<u8>,
    record: RecordModel,
) -> bool {
    &&& password.len() > 0
    &&& record == enrolled(previous, record.setup, record.host_identity, record.password_file)
    &&& may_be_enrolled(password, record)
}

/// Enrolling `password` may fail though it is not empty: under the setup that
/// stood before, or under some setup that was made for it.
pub open spec fn may_refuse_enrollment(previous: Option<RecordModel>, password: Seq<u8>) -> bool {
    &&& password.len() > 0
    &&& match previous {
        Some(record) => may_fail_to_enroll(password, record.setup, record.credential_identifier),
        None => exists|setup: Seq<u8>|
            {
                &&& opaque::setup_of(setup) == Some(setup)
                &&& #[trigger] may_fail_to_enroll(
                    password,
                    setup,
                    spec_default_credential_identifier(),
                )
            },
    }
}

impl OpaqueServerRecord {
    /// A record of a password, for a host that had none. An empty password is
    /// refused.
    pub fn enroll(password: Vec<u8>) -> (result: Result<Self, AuthenticationError>)
        ensures
            match result {
                Ok(record) => is_enrollment(None, password@, record@) && record@.valid()
                    && record@.is_restorable(),
                Err(AuthenticationError::EmptyPassword) => password@.len() == 0,
                Err(error) => {
                    &&& error == AuthenticationError::OpaqueProtocol
                    &&& may_refuse_enrollment(None, password@)
                },
            },
    {
        let mut random = system_random();
        OpaqueServerRecord::enroll_with_rng(None, password, &mut random)
    }

    /// The record with another password. The host stays the same.
    pub fn replace_password(&self, password: Vec<u8>) -> (result: Result<Self, AuthenticationError>)
        requires
            self@.valid(),
        ensures
            match result {
                Ok(record) => {
                    &&& is_enrollment(Some(self@), password@, record@)
                    &&& record@.valid()
                    &&& self@.is_restorable() ==> record@.is_restorable()
                },
                Err(AuthenticationError::EmptyPassword) => password@.len() == 0,
                Err(error) => {
                    &&& error == AuthenticationError::OpaqueProtocol
                    &&& may_refuse_enrollment(Some(self@), password@)
                },
            },
    {
        let mut random = system_random();
        OpaqueServerRecord::enroll_with_rng(Some(self), password, &mut random)
    }

    /// The record of `password` in place of the one of `previous`, with random
    /// bytes from `random`.
    pub fn enroll_with_rng<Random: CryptoRng + RngCore>(
        previous: Option<&OpaqueServerRecord>,
        password: Vec<u8>,
        random: &mut Random,
    ) -> (result: Result<Self, AuthenticationError>)
        requires
            previous matches Some(record) ==> record@.valid(),
        ensures
            match result {
                Ok(record) => {
                    &&& is_enrollment(record_model(previous), password@, record@)
                    &&& record@.valid()
                    &&& (match previous {
                        Some(before) => before@.is_restorable(),
                        None => true,
                    }) ==> record@.is_restorable()
                },
                Err(AuthenticationError::EmptyPassword) => password@.len() == 0,
                Err(error) => {
                    &&& error == AuthenticationError::OpaqueProtocol
                    &&& may_refuse_enrollment(record_model(previous), password@)
                },
            },
    {
        let plan = match plan_enrollment(previous, password.as_slice()) {
            Ok(plan) => plan,
            Err(error) => return Err(error),
        };
        let password = Secret::new(password);
        let ghost secret = password@;
        let setup: Vec<u8> = match &plan.setup {
            Some(setup) => owned(setup.as_slice()),
            None => new_setup(random),
        };
        let host_identity: HostIdentity = match plan.host_identity {
            Some(identity) => identity,
            None => {
                let identity = random_bytes(random, HOST_IDENTITY_SIZE);
                HostIdentity(array32(identity.as_slice(), 0))
            },
        };
        let password_file = register_password(
            random,
            setup.as_slice(),
            plan.credential_identifier.as_slice(),
            password.as_slice(),
        );
        match password_file {
            Some(password_file) => {
                let ghost made = setup@;
                let record = plan.complete(setup, host_identity, password_file);
                proof {
                    host_identity.lemma_size();
                    assert(plan.is_for(record_model(previous)));
                    assert(record@ == enrolled(
                        record_model(previous),
                        made,
                        host_identity@,
                        password_file@,
                    ));
                    assert(record@.setup == made);
                    assert(may_be_enrolled(secret, record@));
                }
                Ok(record)
            },
            None => Err(AuthenticationError::OpaqueProtocol),
        }
    }
}

pub fn validate_credential_identifier(identifier: &[u8]) -> (result: Result<
    (),
    AuthenticationError,
>)
    ensures
        result == if is_credential_identifier(identifier@) {
            Ok(())
        } else {
            Err(AuthenticationError::InvalidCredentialIdentifier)
        },
{
    if identifier.len() == 0 || identifier.len() > MAX_CREDENTIAL_IDENTIFIER_SIZE {
        return Err(AuthenticationError::InvalidCredentialIdentifier);
    }
    Ok(())
}

pub fn require_exact_size(message: &[u8], size: usize) -> (result: Result<(), AuthenticationError>)
    ensures
        result == if message@.len() == size {
            Ok(())
        } else {
            Err(AuthenticationError::InvalidMessage)
        },
{
    if message.len() != size {
        return Err(AuthenticationError::InvalidMessage);
    }
    Ok(())
}

/// Whether a viewer can begin to authenticate with these.
pub fn check_client_start(password: &[u8], credential_identifier: &[u8]) -> (result: Result<
    (),
    AuthenticationError,
>)
    ensures
        result == if password@.len() == 0 {
            Err(AuthenticationError::EmptyPassword)
        } else if !is_credential_identifier(credential_identifier@) {
            Err(AuthenticationError::InvalidCredentialIdentifier)
        } else {
            Ok(())
        },
{
    if password.len() == 0 {
        return Err(AuthenticationError::EmptyPassword);
    }
    validate_credential_identifier(credential_identifier)
}

/// Whether a host can answer this credential request.
pub fn check_server_start(credential_identifier: &[u8], request: &[u8]) -> (result: Result<
    (),
    AuthenticationError,
>)
    ensures
        result == if !is_credential_identifier(credential_identifier@) {
            Err(AuthenticationError::InvalidCredentialIdentifier)
        } else if request@.len() != CREDENTIAL_REQUEST_SIZE {
            Err(AuthenticationError::InvalidMessage)
        } else {
            Ok(())
        },
{
    match validate_credential_identifier(credential_identifier) {
        Ok(()) => require_exact_size(request, CREDENTIAL_REQUEST_SIZE),
        Err(error) => Err(error),
    }
}

/// The identity of the session with `session_key` on the connection that
/// `binding` was exported from.
pub open spec fn session_identity(session_key: Seq<u8>, binding: Seq<u8>) -> Seq<u8> {
    digest::sha256_of(session_identity_label() + session_key + binding)
}

pub fn derive_session_identity(session_key: &[u8], binding: &[u8]) -> (identity: SessionIdentity)
    ensures
        identity@ == session_identity(session_key@, binding@),
{
    let mut data: Vec<u8> = vec![
        0x52, 0x75, 0x73, 0x74, 0x43, 0x6f, 0x6e, 0x73, 0x6f, 0x6c, 0x65, 0x20, 0x61, 0x75, 0x74,
        0x68, 0x65, 0x6e, 0x74, 0x69, 0x63, 0x61, 0x74, 0x65, 0x64, 0x20, 0x73, 0x65, 0x73, 0x73,
        0x69, 0x6f, 0x6e, 0x20, 0x76, 0x31,
    ];
    assert(data@ =~= session_identity_label());
    data.extend_from_slice(session_key);
    data.extend_from_slice(binding);
    assert(data@ =~= session_identity_label() + session_key@ + binding@);
    SessionIdentity(sha256(data.as_slice()))
}

/// What a completed OPAQUE exchange gives a viewer.
pub struct OpaqueClientSuccess {
    pub message: Vec<u8>,
    pub session_key: Vec<u8>,
}

#[derive(Debug)]
pub struct ClientAuthenticationFinish {
    pub message: Vec<u8>,
    pub session_identity: Option<SessionIdentity>,
}

/// The last message of a viewer, and the session it has come to. Where OPAQUE
/// failed, random bytes are sent in the message's place, so that the host cannot
/// tell the failure from a wrong answer.
pub fn finish_client_authentication(
    outcome: Option<OpaqueClientSuccess>,
    random: Vec<u8>,
    binding: &[u8],
) -> (finish: ClientAuthenticationFinish)
    ensures
        match outcome {
            Some(success) => {
                &&& finish.message@ == success.message@
                &&& finish.session_identity is Some
                &&& finish.session_identity->0@ == session_identity(success.session_key@, binding@)
            },
            None => finish.message@ == random@ && finish.session_identity is None,
        },
{
    match outcome {
        Some(success) => {
            let identity = derive_session_identity(success.session_key.as_slice(), binding);
            ClientAuthenticationFinish {
                message: success.message,
                session_identity: Some(identity),
            }
        },
        None => ClientAuthenticationFinish { message: random, session_identity: None },
    }
}

/// The session that a viewer's last message has come to: `session_key` is what
/// OPAQUE gave for it, if it accepted the message.
pub fn finish_server_authentication(
    session_key: Option<Vec<u8>>,
    binding: &[u8],
) -> (result: Result<
    SessionIdentity,
    AuthenticationError,
>)
    ensures
        match session_key {
            Some(key) => result is Ok && result->Ok_0@ == session_identity(key@, binding@),
            None => result == Err::<SessionIdentity, _>(AuthenticationError::AuthenticationFailed),
        },
{
    match session_key {
        Some(key) => Ok(derive_session_identity(key.as_slice(), binding)),
        None => Err(AuthenticationError::AuthenticationFailed),
    }
}

/// What a viewer keeps while the host answers.
pub struct ClientAuthentication {
    state: Secret,
    password: Secret,
    credential_identifier: Vec<u8>,
}

/// The contents of a [`ClientAuthentication`].
#[verifier::ext_equal]
pub struct ClientAuthenticationModel {
    pub state: Seq<u8>,
    pub password: Seq<u8>,
    pub credential_identifier: Seq<u8>,
}

impl View for ClientAuthentication {
    type V = ClientAuthenticationModel;

    closed spec fn view(&self) -> ClientAuthenticationModel {
        ClientAuthenticationModel {
            state: self.state@,
            password: self.password@,
            credential_identifier: self.credential_identifier@,
        }
    }
}

pub struct ClientAuthenticationStart {
    pub state: ClientAuthentication,
    pub credential_identifier: Vec<u8>,
    pub message: Vec<u8>,
}

/// What a viewer may start with: a request that blinds its password, or a failure
/// of OPAQUE.
pub open spec fn is_client_start(
    password: Seq<u8>,
    credential_identifier: Seq<u8>,
    result: Result<ClientAuthenticationStart, AuthenticationError>,
) -> bool {
    match result {
        Ok(start) => {
            &&& password.len() > 0
            &&& is_credential_identifier(credential_identifier)
            &&& opaque::login_started(password, Some((start.message@, start.state@.state)))
            &&& start.message@.len() == CREDENTIAL_REQUEST_SIZE
            &&& start.credential_identifier@ == credential_identifier
            &&& start.state@.password == password
            &&& start.state@.credential_identifier == credential_identifier
        },
        Err(AuthenticationError::EmptyPassword) => password.len() == 0,
        Err(AuthenticationError::InvalidCredentialIdentifier) => password.len() > 0
            && !is_credential_identifier(credential_identifier),
        Err(error) => {
            &&& password.len() > 0
            &&& is_credential_identifier(credential_identifier)
            &&& error == AuthenticationError::OpaqueProtocol
            &&& opaque::login_started(password, None)
        },
    }
}

/// Begins to authenticate with a password.
pub fn start_client_authentication(
    password: Vec<u8>,
    credential_identifier: Vec<u8>,
) -> (result: Result<ClientAuthenticationStart, AuthenticationError>)
    ensures
        is_client_start(password@, credential_identifier@, result),
{
    let mut random = system_random();
    start_client_authentication_with_rng(password, credential_identifier, &mut random)
}

/// Begins to authenticate with a password, with random bytes from `random`.
pub fn start_client_authentication_with_rng<Random: CryptoRng + RngCore>(
    password: Vec<u8>,
    credential_identifier: Vec<u8>,
    random: &mut Random,
) -> (result: Result<ClientAuthenticationStart, AuthenticationError>)
    ensures
        is_client_start(password@, credential_identifier@, result),
{
    match check_client_start(password.as_slice(), credential_identifier.as_slice()) {
        Ok(()) => {},
        Err(error) => return Err(error),
    }
    let password = Secret::new(password);
    match start_login(random, password.as_slice()) {
        Some((message, state)) => Ok(
            ClientAuthenticationStart {
                message,
                credential_identifier: owned(credential_identifier.as_slice()),
                state: ClientAuthentication {
                    state: Secret::new(state),
                    password,
                    credential_identifier,
                },
            },
        ),
        None => Err(AuthenticationError::OpaqueProtocol),
    }
}

/// What comes of a host's answer for a viewer in this state.
pub open spec fn is_client_finish(
    state: ClientAuthenticationModel,
    response: Seq<u8>,
    binding: Seq<u8>,
    result: Result<ClientAuthenticationFinish, AuthenticationError>,
) -> bool {
    if response.len() != CREDENTIAL_RESPONSE_SIZE {
        result == Err::<ClientAuthenticationFinish, _>(AuthenticationError::InvalidMessage)
    } else if !opaque::is_credential_response(response) {
        result == Err::<ClientAuthenticationFinish, _>(AuthenticationError::OpaqueProtocol)
    } else {
        &&& result is Ok
        &&& match opaque::login_finish(
            state.state,
            state.password,
            response,
            binding,
            client_identifier(),
            server_identifier(),
        ) {
            Some((message, session_key)) => {
                &&& result->Ok_0.message@ == message
                &&& result->Ok_0.session_identity is Some
                &&& result->Ok_0.session_identity->0@ == session_identity(session_key, binding)
            },
            None => {
                &&& result->Ok_0.message@.len() == CREDENTIAL_FINALIZATION_SIZE
                &&& result->Ok_0.session_identity is None
            },
        }
    }
}

impl ClientAuthentication {
    /// The last message of the viewer. An answer that does not fit the password or
    /// the connection still gets one, of random bytes.
    pub fn finish(self, response: &[u8], binding: [u8; TLS_EXPORTER_SIZE]) -> (result: Result<
        ClientAuthenticationFinish,
        AuthenticationError,
    >)
        ensures
            is_client_finish(self@, response@, binding@, result),
    {
        let mut random = system_random();
        self.finish_with_rng(response, binding, &mut random)
    }

    /// The last message of the viewer, with random bytes from `random`.
    pub fn finish_with_rng<Random: CryptoRng + RngCore>(
        self,
        response: &[u8],
        binding: [u8; TLS_EXPORTER_SIZE],
        random: &mut Random,
    ) -> (result: Result<ClientAuthenticationFinish, AuthenticationError>)
        ensures
            is_client_finish(self@, response@, binding@, result),
    {
        let checked = require_exact_size(response, CREDENTIAL_RESPONSE_SIZE);
        if checked.is_err() {
            return Err(AuthenticationError::InvalidMessage);
        }
        if !reads_response(response) {
            return Err(AuthenticationError::OpaqueProtocol);
        }
        let (client, server) = identifiers();
        let finished = finish_login(
            random,
            self.state.as_slice(),
            self.password.as_slice(),
            response,
            binding.as_slice(),
            client.as_slice(),
            server.as_slice(),
        );
        match finished {
            Some((message, session_key)) => {
                let success = OpaqueClientSuccess { message, session_key };
                Ok(finish_client_authentication(Some(success), Vec::new(), binding.as_slice()))
            },
            None => {
                let message = random_bytes(random, CREDENTIAL_FINALIZATION_SIZE);
                Ok(finish_client_authentication(None, message, binding.as_slice()))
            },
        }
    }

    #[must_use]
    pub fn credential_identifier(&self) -> (identifier: &[u8])
        ensures
            identifier@ == self@.credential_identifier,
    {
        self.credential_identifier.as_slice()
    }
}

/// What a host keeps until the viewer's last message.
pub struct ServerAuthentication {
    state: Secret,
    binding: [u8; TLS_EXPORTER_SIZE],
}

/// The contents of a [`ServerAuthentication`].
#[verifier::ext_equal]
pub struct ServerAuthenticationModel {
    pub state: Seq<u8>,
    pub binding: Seq<u8>,
}

impl View for ServerAuthentication {
    type V = ServerAuthenticationModel;

    closed spec fn view(&self) -> ServerAuthenticationModel {
        ServerAuthenticationModel { state: self.state@, binding: self.binding@ }
    }
}

impl ServerAuthenticationModel {
    pub open spec fn well_formed(self) -> bool {
        self.state.len() == SERVER_LOGIN_SIZE && self.binding.len() == TLS_EXPORTER_SIZE
    }

    pub open spec fn session_key(self) -> Seq<u8> {
        self.state.take(64)
    }

    /// The one last message that is accepted.
    pub open spec fn expected(self) -> Seq<u8> {
        self.state.skip(64)
    }
}

pub struct ServerAuthenticationStart {
    pub state: ServerAuthentication,
    pub message: Vec<u8>,
}

/// The password file to answer a request for `identifier` with.
pub open spec fn file_for(record: RecordModel, identifier: Seq<u8>) -> Option<Seq<u8>> {
    if identifier == record.credential_identifier {
        Some(record.password_file)
    } else {
        None
    }
}

/// What a host may answer a credential request with.
pub open spec fn is_server_start(
    record: RecordModel,
    credential_identifier: Seq<u8>,
    request: Seq<u8>,
    binding: Seq<u8>,
    result: Result<ServerAuthenticationStart, AuthenticationError>,
) -> bool {
    if !is_credential_identifier(credential_identifier) {
        result == Err::<ServerAuthenticationStart, _>(
            AuthenticationError::InvalidCredentialIdentifier,
        )
    } else if request.len() != CREDENTIAL_REQUEST_SIZE {
        result == Err::<ServerAuthenticationStart, _>(AuthenticationError::InvalidMessage)
    } else {
        &&& opaque::login_answered(
            record.setup,
            file_for(record, credential_identifier),
            request,
            credential_identifier,
            binding,
            client_identifier(),
            server_identifier(),
            match result {
                Ok(start) => Some((start.message@, start.state@.state)),
                Err(_) => None,
            },
        )
        &&& match result {
            Ok(start) => {
                &&& start.state@.well_formed()
                &&& start.state@.binding == binding
                &&& start.message@.len() == CREDENTIAL_RESPONSE_SIZE
            },
            Err(error) => error == AuthenticationError::OpaqueProtocol,
        }
    }
}

/// Answers a credential request.
pub fn start_server_authentication(
    record: &OpaqueServerRecord,
    credential_identifier: &[u8],
    request: &[u8],
    binding: [u8; TLS_EXPORTER_SIZE],
) -> (result: Result<ServerAuthenticationStart, AuthenticationError>)
    ensures
        is_server_start(record@, credential_identifier@, request@, binding@, result),
{
    let mut random = system_random();
    start_server_authentication_with_rng(
        record,
        credential_identifier,
        request,
        binding,
        &mut random,
    )
}

/// Answers a credential request, with random bytes from `random`.
pub fn start_server_authentication_with_rng<Random: CryptoRng + RngCore>(
    record: &OpaqueServerRecord,
    credential_identifier: &[u8],
    request: &[u8],
    binding: [u8; TLS_EXPORTER_SIZE],
    random: &mut Random,
) -> (result: Result<ServerAuthenticationStart, AuthenticationError>)
    ensures
        is_server_start(record@, credential_identifier@, request@, binding@, result),
{
    match check_server_start(credential_identifier, request) {
        Ok(()) => {},
        Err(error) => return Err(error),
    }
    let (client, server) = identifiers();
    let answered = answer_login(
        random,
        record.setup.as_slice(),
        record.password_file_for(credential_identifier),
        request,
        credential_identifier,
        binding.as_slice(),
        client.as_slice(),
        server.as_slice(),
    );
    match answered {
        Some((message, state)) => Ok(
            ServerAuthenticationStart {
                message,
                state: ServerAuthentication { state: Secret::new(state), binding },
            },
        ),
        None => Err(AuthenticationError::OpaqueProtocol),
    }
}

/// The session that a viewer's last message comes to for a host in this state.
pub open spec fn is_server_finish(
    state: ServerAuthenticationModel,
    finalization: Seq<u8>,
    result: Result<SessionIdentity, AuthenticationError>,
) -> bool {
    if finalization.len() != CREDENTIAL_FINALIZATION_SIZE {
        result == Err::<SessionIdentity, _>(AuthenticationError::InvalidMessage)
    } else if finalization == state.expected() {
        &&& result is Ok
        &&& result->Ok_0@ == session_identity(state.session_key(), state.binding)
    } else {
        result == Err::<SessionIdentity, _>(AuthenticationError::AuthenticationFailed)
    }
}

impl ServerAuthentication {
    /// The session, if the viewer's last message is the one that its password
    /// gives.
    pub fn finish(self, finalization: &[u8]) -> (result: Result<
        SessionIdentity,
        AuthenticationError,
    >)
        requires
            self@.well_formed(),
        ensures
            is_server_finish(self@, finalization@, result),
    {
        let checked = require_exact_size(finalization, CREDENTIAL_FINALIZATION_SIZE);
        if checked.is_err() {
            return Err(AuthenticationError::InvalidMessage);
        }
        let (client, server) = identifiers();
        let session_key = accept_login(
            self.state.as_slice(),
            finalization,
            self.binding.as_slice(),
            client.as_slice(),
            server.as_slice(),
        );
        finish_server_authentication(session_key, self.binding.as_slice())
    }
}

/// A host accepts exactly one last message, and whoever sends it is in the session
/// of the host's own key and connection.
pub proof fn law_one_last_message_is_accepted(
    state: ServerAuthenticationModel,
    first: Seq<u8>,
    first_result: Result<SessionIdentity, AuthenticationError>,
    second: Seq<u8>,
    second_result: Result<SessionIdentity, AuthenticationError>,
)
    requires
        state.well_formed(),
        is_server_finish(state, first, first_result),
        is_server_finish(state, second, second_result),
        first_result is Ok,
        second_result is Ok,
    ensures
        first == second,
        first_result->Ok_0@ == second_result->Ok_0@,
{
}

/// Where OPAQUE gives both ends of a connection one key, both come to one session.
pub proof fn law_both_ends_come_to_one_session(
    viewer: ClientAuthenticationModel,
    response: Seq<u8>,
    binding: Seq<u8>,
    finish: Result<ClientAuthenticationFinish, AuthenticationError>,
    host: ServerAuthenticationModel,
    session: Result<SessionIdentity, AuthenticationError>,
)
    requires
        host.well_formed(),
        host.binding == binding,
        is_client_finish(viewer, response, binding, finish),
        finish matches Ok(last) && last.session_identity is Some,
        finish matches Ok(last) && is_server_finish(host, last.message@, session),
        session is Ok,
    ensures
        opaque::login_finish(
            viewer.state,
            viewer.password,
            response,
            binding,
            client_identifier(),
            server_identifier(),
        ) == Some((finish->Ok_0.message@, host.session_key())) ==> finish->Ok_0.session_identity->0@
            == session->Ok_0@,
{
}

/// A viewer that OPAQUE turned away is in no session, and what it sends says
/// nothing of why.
pub proof fn law_a_turned_away_viewer_is_in_no_session(
    viewer: ClientAuthenticationModel,
    response: Seq<u8>,
    binding: Seq<u8>,
    finish: Result<ClientAuthenticationFinish, AuthenticationError>,
)
    requires
        is_client_finish(viewer, response, binding, finish),
        finish is Ok,
    ensures
        finish->Ok_0.session_identity is Some <==> opaque::login_finish(
            viewer.state,
            viewer.password,
            response,
            binding,
            client_identifier(),
            server_identifier(),
        ) is Some,
{
}

/// A record that OPAQUE can read is read back from its stored form as it was.
pub proof fn law_stored_records_are_restored(record: RecordModel)
    requires
        record.valid(),
    ensures
        record.is_restorable() ==> restored(record.stored()) == Ok::<_, AuthenticationError>(
            record,
        ),
{
    law_record_round_trip(record);
}

/// The parts of a stored record are found as they were.
pub proof fn law_record_round_trip(record: RecordModel)
    requires
        record.valid(),
    ensures
        record_in(record.stored()) == Ok::<_, AuthenticationError>(record),
{
    let words = seq![
        RECORD_VERSION,
        record.credential_identifier.len() as u16,
        record.setup.len() as u16,
        record.password_file.len() as u16,
    ];
    let stored = record.stored();
    let rest = record.host_identity + record.credential_identifier + record.setup
        + record.password_file;
    assert(stored =~= record_magic() + bytes::words2(words) + rest);
    bytes::lemma_words2(record_magic(), words, rest);
    assert(words[0] == word_at(stored, 8));
    assert(words[1] == word_at(stored, 10));
    assert(words[2] == word_at(stored, 12));
    assert(words[3] == word_at(stored, 14));
    assert(stored.take(8) =~= record_magic());
    assert(stored.subrange(16, 48) =~= record.host_identity);
    let identifier_end = 48 + record.credential_identifier.len();
    let setup_end = identifier_end + record.setup.len();
    let end = setup_end + record.password_file.len();
    assert(stored.len() == end);
    assert(stored.subrange(48, identifier_end as int) =~= record.credential_identifier);
    assert(stored.subrange(identifier_end as int, setup_end as int) =~= record.setup);
    assert(stored.subrange(setup_end as int, end as int) =~= record.password_file);
}

/// A stored record with anything behind it is refused.
pub proof fn law_trailing_data_is_rejected(record: RecordModel, trailing: Seq<u8>)
    requires
        record.valid(),
        trailing.len() > 0,
    ensures
        record_in(record.stored() + trailing) == Err::<RecordModel, _>(
            AuthenticationError::InvalidRecord,
        ),
{
    let stored = record.stored();
    let longer = stored + trailing;
    law_record_round_trip(record);
    assert(stored.len() >= RECORD_HEADER_SIZE);
    assert(longer.take(8) =~= stored.take(8));
    assert(longer.subrange(8, 10) =~= stored.subrange(8, 10));
    assert(longer.subrange(10, 12) =~= stored.subrange(10, 12));
    assert(longer.subrange(12, 14) =~= stored.subrange(12, 14));
    assert(longer.subrange(14, 16) =~= stored.subrange(14, 16));
}

/// A new password leaves the server setup, the credential identifier and the
/// host's identity as they were.
pub proof fn law_password_replacement_keeps_the_host(
    record: RecordModel,
    setup: Seq<u8>,
    host_identity: Seq<u8>,
    password_file: Seq<u8>,
)
    ensures
        ({
            let replaced = enrolled(Some(record), setup, host_identity, password_file);
            &&& replaced.setup == record.setup
            &&& replaced.credential_identifier == record.credential_identifier
            &&& replaced.host_identity == record.host_identity
            &&& replaced.password_file == password_file
        }),
{
}

/// What the fixed names say: the bytes of each are those of its text.
pub proof fn law_fixed_names()
    ensures
        text::ascii_text(spec_default_credential_identifier()) == "rustconsole-default"@,
        text::ascii_text(spec_tls_exporter_label()) == "EXPORTER-RustConsole-OPAQUE-v1"@,
        text::ascii_text(session_identity_label()) == "RustConsole authenticated session v1"@,
        text::ascii_text(server_identifier()) == "RustConsole host"@,
        text::ascii_text(client_identifier()) == "RustConsole viewer"@,
        text::ascii_text(record_magic()) == "RCOPAQUE"@,
{
    reveal_strlit("rustconsole-default");
    reveal_strlit("EXPORTER-RustConsole-OPAQUE-v1");
    reveal_strlit("RustConsole authenticated session v1");
    reveal_strlit("RustConsole host");
    reveal_strlit("RustConsole viewer");
    reveal_strlit("RCOPAQUE");
    assert(text::ascii_text(spec_default_credential_identifier()) =~= "rustconsole-default"@);
    assert(text::ascii_text(spec_tls_exporter_label()) =~= "EXPORTER-RustConsole-OPAQUE-v1"@);
    assert(text::ascii_text(session_identity_label()) =~= "RustConsole authenticated session v1"@);
    assert(text::ascii_text(server_identifier()) =~= "RustConsole host"@);
    assert(text::ascii_text(client_identifier()) =~= "RustConsole viewer"@);
    assert(text::ascii_text(record_magic()) =~= "RCOPAQUE"@);
}


/// Where the parts of a stored record stand: the magic, then four words of two
/// bytes for the version and the three sizes, the identity of the host from
/// byte 16 on, and from byte 48 on the identifier, the setup and the password
/// file one after the other, with nothing behind them.
pub proof fn law_record_layout(stored: Seq<u8>)
    ensures
        ({
            let version = 256 * stored[8] + stored[9];
            let identifier = 256 * stored[10] + stored[11];
            let setup = 256 * stored[12] + stored[13];
            let password_file = 256 * stored[14] + stored[15];
            let is_framed = stored.len() >= 48 && stored.take(8) == record_magic();
            &&& record_in(stored) is Ok <==> is_framed && version == 2 && 1 <= identifier <= 255
                && stored.len() == 48 + identifier + setup + password_file
            &&& record_in(stored) matches Ok(record) ==> {
                &&& record.host_identity == stored.subrange(16, 48)
                &&& record.credential_identifier == stored.subrange(48, 48 + identifier)
                &&& record.setup == stored.subrange(48 + identifier, 48 + identifier + setup)
                &&& record.password_file == stored.subrange(
                    48 + identifier + setup,
                    48 + identifier + setup + password_file,
                )
            }
            &&& is_framed && version != 2 <==> (record_in(stored) matches Err(error)
                && error is UnsupportedRecordVersion)
            &&& record_in(stored) matches Err(AuthenticationError::UnsupportedRecordVersion(found))
                ==> found == version
            &&& record_in(stored) matches Err(error) ==> error is UnsupportedRecordVersion
                || error is InvalidRecord
        }),
{
    if stored.len() >= 48 {
        bytes::law_most_significant_byte_first(stored.subrange(8, 10));
        bytes::law_most_significant_byte_first(stored.subrange(10, 12));
        bytes::law_most_significant_byte_first(stored.subrange(12, 14));
        bytes::law_most_significant_byte_first(stored.subrange(14, 16));
    }
}

/// A credential identifier has between one and 255 bytes, and the password file
/// of a record is for its own identifier and for no other.
pub proof fn law_password_files_have_one_identifier(record: RecordModel, identifier: Seq<u8>)
    ensures
        is_credential_identifier(identifier) <==> 1 <= identifier.len() <= 255,
        identifier == record.credential_identifier ==> file_for(record, identifier) == Some(
            record.password_file,
        ),
        identifier != record.credential_identifier ==> file_for(record, identifier) is None,
{
}

/// A new record has the setup, the identity and the password file that were
/// made for it, and the identifier that all records start with.
pub proof fn law_a_new_record(setup: Seq<u8>, host_identity: Seq<u8>, password_file: Seq<u8>)
    ensures
        ({
            let record = enrolled(None, setup, host_identity, password_file);
            &&& record.setup == setup
            &&& record.host_identity == host_identity
            &&& record.password_file == password_file
            &&& record.credential_identifier == spec_default_credential_identifier()
        }),
{
}

/// The last message of a viewer is taken where it is the second half of what
/// the host kept, and leads to the session of the first half and the host's own
/// binding.
pub proof fn law_the_last_message_decides(
    state: ServerAuthenticationModel,
    finalization: Seq<u8>,
    result: Result<SessionIdentity, AuthenticationError>,
)
    requires
        state.well_formed(),
        is_server_finish(state, finalization, result),
    ensures
        finalization.len() != 64 <==> (result matches Err(error) && error is InvalidMessage),
        result is Ok <==> finalization == state.state.subrange(64, 128),
        result matches Ok(identity) ==> identity@ == session_identity(
            state.state.subrange(0, 64),
            state.binding,
        ),
        finalization.len() == 64 && finalization != state.state.subrange(64, 128) <==> (
        result matches Err(error) && error is AuthenticationFailed),
{
    assert(state.state.subrange(64, 128) =~= state.state.skip(64));
    assert(state.state.subrange(0, 64) =~= state.state.take(64));
}

/// Which login a viewer can start: a password that is not empty, then an
/// identifier within its size; the start keeps both and names the identifier.
pub proof fn law_a_viewer_starts_with_its_password(
    password: Seq<u8>,
    identifier: Seq<u8>,
    result: Result<ClientAuthenticationStart, AuthenticationError>,
)
    requires
        is_client_start(password, identifier, result),
    ensures
        result matches Ok(start) ==> {
            &&& password.len() > 0
            &&& 1 <= identifier.len() <= 255
            &&& start.credential_identifier@ == identifier
            &&& start.state@.password == password
            &&& start.state@.credential_identifier == identifier
            &&& start.message@.len() == 96
        },
        password.len() == 0 <==> (result matches Err(error) && error is EmptyPassword),
        password.len() > 0 && !(1 <= identifier.len() <= 255) <==> (result matches Err(error)
            && error is InvalidCredentialIdentifier),
{
}

/// Which login a host answers: an identifier within its size, then a request of
/// 96 bytes. What it keeps is for the binding of this connection, and what it
/// sends has 320 bytes.
pub proof fn law_a_host_answers_requests(
    record: RecordModel,
    identifier: Seq<u8>,
    request: Seq<u8>,
    binding: Seq<u8>,
    result: Result<ServerAuthenticationStart, AuthenticationError>,
)
    requires
        is_server_start(record, identifier, request, binding, result),
    ensures
        !(1 <= identifier.len() <= 255) <==> (result matches Err(error)
            && error is InvalidCredentialIdentifier),
        1 <= identifier.len() <= 255 && request.len() != 96 <==> (result matches Err(error)
            && error is InvalidMessage),
        result matches Ok(start) ==> start.state@.binding == binding && start.state@.state.len()
            == 128 && start.message@.len() == 320,
{
}

/// Which response a viewer finishes with: one of 320 bytes that can be read. A
/// response of another password is answered with 64 bytes, and no session.
pub proof fn law_a_viewer_finishes_responses(
    viewer: ClientAuthenticationModel,
    response: Seq<u8>,
    binding: Seq<u8>,
    result: Result<ClientAuthenticationFinish, AuthenticationError>,
)
    requires
        is_client_finish(viewer, response, binding, result),
    ensures
        response.len() != 320 <==> (result matches Err(error) && error is InvalidMessage),
        response.len() == 320 && !opaque::is_credential_response(response) <==> (
        result matches Err(error) && error is OpaqueProtocol),
        result matches Ok(finish) ==> (finish.session_identity is None ==> finish.message@.len()
            == 64),
{
}

/// What a session's identity is made of: the label, the session key and the
/// binding of the connection, one after the other.
pub proof fn law_session_identities(session_key: Seq<u8>, binding: Seq<u8>, source: Seq<u8>)
    requires
        source.len() == 36 + session_key.len() + binding.len(),
        source.take(36) == session_identity_label(),
        source.subrange(36, 36int + session_key.len()) == session_key,
        source.skip(36int + session_key.len()) == binding,
    ensures
        session_identity(session_key, binding) == digest::sha256_of(source),
{
    assert(source =~= session_identity_label() + session_key + binding) by {
        let whole = session_identity_label() + session_key + binding;
        assert forall|i: int| 0 <= i < source.len() implies source[i] == whole[i] by {
            if i < 36 {
                assert(source[i] == source.take(36)[i]);
            } else if i < 36 + session_key.len() {
                assert(source[i] == source.subrange(36, 36int + session_key.len())[i - 36]);
            } else {
                assert(source[i] == source.skip(36int + session_key.len())[i - 36
                    - session_key.len()]);
            }
        }
    }
}

} // verus!
