//! The OPAQUE password exchange, on bytes.
//!
//! Every function here makes one call into `opaque_ke` with the cipher suite of
//! this library. Values of `opaque_ke` pass in and out in their serialised form.
//! Where a call draws random bytes, its contract names what it may give for its
//! other arguments; where it does not, its contract names what it gives.

use core::marker::PhantomData;
use opaque_ke::argon2::Argon2;
use opaque_ke::key_exchange::KeyExchange;
use opaque_ke::rand::rngs::OsRng;
use opaque_ke::rand::{CryptoRng, RngCore};
use opaque_ke::{
    CipherSuite, ClientLogin, ClientLoginFinishParameters, ClientRegistration,
    ClientRegistrationFinishParameters, CredentialFinalization, CredentialRequest,
    CredentialResponse, Identifiers, RegistrationRequest, RegistrationResponse,
    RegistrationUpload, Ristretto255, ServerLogin, ServerLoginParameters, ServerRegistration,
    ServerSetup, TripleDh,
};
use vstd::prelude::*;

verus! {

/// The size of a server setup.
pub const SETUP_SIZE: usize = 128;

/// The size of a password file.
pub const PASSWORD_FILE_SIZE: usize = 192;

/// The size of a credential request.
pub const CREDENTIAL_REQUEST_SIZE: usize = 96;

/// The size of a credential response.
pub const CREDENTIAL_RESPONSE_SIZE: usize = 320;

/// The size of a credential finalization.
pub const CREDENTIAL_FINALIZATION_SIZE: usize = 64;

/// The size of a session key.
pub const SESSION_KEY_SIZE: usize = 64;

/// The size of what a host keeps of a login: the session key, and the one
/// finalization that it accepts.
pub const SERVER_LOGIN_SIZE: usize = 128;

/// Declares `argon2::Argon2`, the key stretching function.
#[verifier::external_type_specification]
#[verifier::external_body]
pub struct ExArgon2<'key>(Argon2<'key>);

/// Declares `opaque_ke::Ristretto255`, the group of all keys.
#[verifier::external_type_specification]
#[verifier::external_body]
pub struct ExRistretto255(Ristretto255);

/// Declares `rand::rngs::OsRng`, the random generator of the system.
#[verifier::external_type_specification]
#[verifier::external_body]
pub struct ExOsRng(OsRng);

/// The primitives of the exchange. `Exchange` is the triple Diffie-Hellman key
/// exchange wherever the suite is used.
pub struct RustConsoleCipherSuite<Exchange>(PhantomData<Exchange>);

impl<Exchange: KeyExchange<Group = Ristretto255>> CipherSuite for RustConsoleCipherSuite<Exchange> {
    type OprfCs = Ristretto255;

    type KeyExchange = Exchange;

    type Ksf = Argon2<'static>;
}

type Suite = RustConsoleCipherSuite<TripleDh<Ristretto255, sha2::Sha512>>;

/// The bytes of a server setup that `ServerSetup::deserialize` reads from `bytes`,
/// if it reads one.
pub uninterp spec fn setup_of(bytes: Seq<u8>) -> Option<Seq<u8>>;

/// The bytes of a password file that `ServerRegistration::deserialize` reads from
/// `bytes`, if it reads one.
pub uninterp spec fn password_file_of(bytes: Seq<u8>) -> Option<Seq<u8>>;

/// `ClientRegistration::start` may give this for a password: a request and a state,
/// or a failure.
pub uninterp spec fn registration_started(
    password: Seq<u8>,
    outcome: Option<(Seq<u8>, Seq<u8>)>,
) -> bool;

/// The response that `ServerRegistration::start` gives to a registration request.
pub uninterp spec fn registration_answer(
    setup: Seq<u8>,
    request: Seq<u8>,
    credential_identifier: Seq<u8>,
) -> Option<Seq<u8>>;

/// `ClientRegistration::finish` may give this upload for a state, or a failure.
pub uninterp spec fn registration_finished(
    state: Seq<u8>,
    password: Seq<u8>,
    response: Seq<u8>,
    client: Seq<u8>,
    server: Seq<u8>,
    outcome: Option<Seq<u8>>,
) -> bool;

/// The password file that `ServerRegistration::finish` makes of an upload.
pub uninterp spec fn registered(upload: Seq<u8>) -> Option<Seq<u8>>;

/// `ClientLogin::start` may give this for a password: a request and a state, or a
/// failure.
pub uninterp spec fn login_started(
    password: Seq<u8>,
    outcome: Option<(Seq<u8>, Seq<u8>)>,
) -> bool;

/// `ServerLogin::start` may give this: a response and a state, or a failure.
pub uninterp spec fn login_answered(
    setup: Seq<u8>,
    password_file: Option<Seq<u8>>,
    request: Seq<u8>,
    credential_identifier: Seq<u8>,
    binding: Seq<u8>,
    client: Seq<u8>,
    server: Seq<u8>,
    outcome: Option<(Seq<u8>, Seq<u8>)>,
) -> bool;

/// `CredentialResponse::deserialize` reads a response from these bytes.
pub uninterp spec fn is_credential_response(bytes: Seq<u8>) -> bool;

/// The finalization and the session key that `ClientLogin::finish` gives, or a
/// failure.
pub uninterp spec fn login_finish(
    state: Seq<u8>,
    password: Seq<u8>,
    response: Seq<u8>,
    binding: Seq<u8>,
    client: Seq<u8>,
    server: Seq<u8>,
) -> Option<(Seq<u8>, Seq<u8>)>;

/// Gives the value `rand::rngs::OsRng`, which draws from the random generator of the
/// system.
#[verifier::external_body]
pub(crate) fn system_random() -> OsRng {
    OsRng
}

/// Calls `RngCore::fill_bytes` on so many bytes. Nothing but their number is
/// claimed.
#[verifier::external_body]
pub(crate) fn random_bytes<Random: CryptoRng + RngCore>(random: &mut Random, size: usize) -> (bytes:
    Vec<u8>)
    ensures
        bytes@.len() == size,
{
    let mut bytes = vec![0; size];
    random.fill_bytes(&mut bytes);
    bytes
}

/// Calls `ServerSetup::new`, which makes a setup of random keys. A setup is read
/// back as it was written.
#[verifier::external_body]
pub(crate) fn new_setup<Random: CryptoRng + RngCore>(random: &mut Random) -> (setup: Vec<u8>)
    ensures
        setup@.len() == SETUP_SIZE,
        setup_of(setup@) == Some(setup@),
{
    ServerSetup::<Suite>::new(random).serialize().to_vec()
}

/// Calls `ServerSetup::deserialize`. What it read is read back as it was written.
#[verifier::external_body]
pub(crate) fn restore_setup(bytes: &[u8]) -> (setup: Option<Vec<u8>>)
    ensures
        match setup {
            Some(setup) => {
                &&& setup_of(bytes@) == Some(setup@)
                &&& setup@.len() == SETUP_SIZE
                &&& setup_of(setup@) == Some(setup@)
            },
            None => setup_of(bytes@) is None,
        },
{
    Some(ServerSetup::<Suite>::deserialize(bytes).ok()?.serialize().to_vec())
}

/// Calls `ServerRegistration::deserialize`. What it read is read back as it was
/// written.
#[verifier::external_body]
pub(crate) fn restore_password_file(bytes: &[u8]) -> (password_file: Option<Vec<u8>>)
    ensures
        match password_file {
            Some(file) => {
                &&& password_file_of(bytes@) == Some(file@)
                &&& file@.len() == PASSWORD_FILE_SIZE
                &&& password_file_of(file@) == Some(file@)
            },
            None => password_file_of(bytes@) is None,
        },
{
    Some(ServerRegistration::<Suite>::deserialize(bytes).ok()?.serialize().to_vec())
}

/// Calls `ClientRegistration::start`, which blinds the password with a random
/// factor.
#[verifier::external_body]
pub(crate) fn start_registration<Random: CryptoRng + RngCore>(
    random: &mut Random,
    password: &[u8],
) -> (started: Option<(Vec<u8>, Vec<u8>)>)
    ensures
        match started {
            Some((request, state)) => registration_started(password@, Some((request@, state@))),
            None => registration_started(password@, None),
        },
{
    let start = ClientRegistration::<Suite>::start(random, password).ok()?;
    Some((start.message.serialize().to_vec(), start.state.serialize().to_vec()))
}

/// Calls `ServerRegistration::start`, which draws nothing at random.
#[verifier::external_body]
pub(crate) fn answer_registration(
    setup: &[u8],
    request: &[u8],
    credential_identifier: &[u8],
) -> (response: Option<Vec<u8>>)
    ensures
        match response {
            Some(response) => registration_answer(setup@, request@, credential_identifier@) == Some(
                response@,
            ),
            None => registration_answer(setup@, request@, credential_identifier@) is None,
        },
{
    let setup = ServerSetup::<Suite>::deserialize(setup).ok()?;
    let request = RegistrationRequest::deserialize(request).ok()?;
    let start = ServerRegistration::start(&setup, request, credential_identifier).ok()?;
    Some(start.message.serialize().to_vec())
}

/// Calls `ClientRegistration::finish` with the default key stretching, which seals
/// an envelope under a random nonce. The upload that it gives is read back.
#[verifier::external_body]
pub(crate) fn finish_registration<Random: CryptoRng + RngCore>(
    random: &mut Random,
    state: &[u8],
    password: &[u8],
    response: &[u8],
    client: &[u8],
    server: &[u8],
) -> (upload: Option<Vec<u8>>)
    ensures
        match upload {
            Some(upload) => {
                &&& registration_finished(
                    state@,
                    password@,
                    response@,
                    client@,
                    server@,
                    Some(upload@),
                )
                &&& registered(upload@) is Some
            },
            None => registration_finished(state@, password@, response@, client@, server@, None),
        },
{
    let state = ClientRegistration::<Suite>::deserialize(state).ok()?;
    let response = RegistrationResponse::deserialize(response).ok()?;
    let identifiers = Identifiers { client: Some(client), server: Some(server) };
    let stretching = Argon2::default();
    let parameters = ClientRegistrationFinishParameters::new(identifiers, Some(&stretching));
    let finish = state.finish(random, password, response, parameters).ok()?;
    Some(finish.message.serialize().to_vec())
}

/// Calls `ServerRegistration::finish`, which makes the password file of an upload.
/// The file is read back as it was written.
#[verifier::external_body]
pub(crate) fn register(upload: &[u8]) -> (password_file: Option<Vec<u8>>)
    ensures
        match password_file {
            Some(file) => {
                &&& registered(upload@) == Some(file@)
                &&& file@.len() == PASSWORD_FILE_SIZE
                &&& password_file_of(file@) == Some(file@)
            },
            None => registered(upload@) is None,
        },
{
    let upload = RegistrationUpload::<Suite>::deserialize(upload).ok()?;
    Some(ServerRegistration::finish(upload).serialize().to_vec())
}

/// Calls `ClientLogin::start`, which blinds the password with a random factor and
/// makes random keys.
#[verifier::external_body]
pub(crate) fn start_login<Random: CryptoRng + RngCore>(
    random: &mut Random,
    password: &[u8],
) -> (started: Option<(Vec<u8>, Vec<u8>)>)
    ensures
        match started {
            Some((request, state)) => {
                &&& login_started(password@, Some((request@, state@)))
                &&& request@.len() == CREDENTIAL_REQUEST_SIZE
            },
            None => login_started(password@, None),
        },
{
    let start = ClientLogin::<Suite>::start(random, password).ok()?;
    Some((start.message.serialize().to_vec(), start.state.serialize().to_vec()))
}

/// Calls `ServerLogin::start`, which makes random keys. Without a password file it
/// answers with a made-up one.
#[verifier::external_body]
pub(crate) fn answer_login<Random: CryptoRng + RngCore>(
    random: &mut Random,
    setup: &[u8],
    password_file: Option<&[u8]>,
    request: &[u8],
    credential_identifier: &[u8],
    binding: &[u8],
    client: &[u8],
    server: &[u8],
) -> (answered: Option<(Vec<u8>, Vec<u8>)>)
    ensures
        login_answered(
            setup@,
            match password_file {
                Some(file) => Some(file@),
                None => None,
            },
            request@,
            credential_identifier@,
            binding@,
            client@,
            server@,
            match answered {
                Some((response, state)) => Some((response@, state@)),
                None => None,
            },
        ),
        answered matches Some((response, state)) ==> response@.len() == CREDENTIAL_RESPONSE_SIZE
            && state@.len() == SERVER_LOGIN_SIZE,
{
    let setup = ServerSetup::<Suite>::deserialize(setup).ok()?;
    let file = password_file.map(ServerRegistration::deserialize).transpose().ok()?;
    let request = CredentialRequest::deserialize(request).ok()?;
    let identifiers = Identifiers { client: Some(client), server: Some(server) };
    let parameters = ServerLoginParameters { context: Some(binding), identifiers };
    let start =
        ServerLogin::start(random, &setup, file, request, credential_identifier, parameters).ok()?;
    Some((start.message.serialize().to_vec(), start.state.serialize().to_vec()))
}

/// Calls `CredentialResponse::deserialize`.
#[verifier::external_body]
pub(crate) fn reads_response(bytes: &[u8]) -> (result: bool)
    ensures
        result == is_credential_response(bytes@),
{
    CredentialResponse::<Suite>::deserialize(bytes).is_ok()
}

/// Calls `ClientLogin::finish` with the default key stretching. With this key
/// exchange it draws nothing at random.
#[verifier::external_body]
pub(crate) fn finish_login<Random: CryptoRng + RngCore>(
    random: &mut Random,
    state: &[u8],
    password: &[u8],
    response: &[u8],
    binding: &[u8],
    client: &[u8],
    server: &[u8],
) -> (finished: Option<(Vec<u8>, Vec<u8>)>)
    ensures
        match finished {
            Some((finalization, session_key)) => {
                &&& login_finish(state@, password@, response@, binding@, client@, server@) == Some(
                    (finalization@, session_key@),
                )
                &&& finalization@.len() == CREDENTIAL_FINALIZATION_SIZE
                &&& session_key@.len() == SESSION_KEY_SIZE
            },
            None => login_finish(state@, password@, response@, binding@, client@, server@) is None,
        },
{
    let state = ClientLogin::<Suite>::deserialize(state).ok()?;
    let response = CredentialResponse::deserialize(response).ok()?;
    let identifiers = Identifiers { client: Some(client), server: Some(server) };
    let stretching = Argon2::default();
    let parameters =
        ClientLoginFinishParameters::new(Some(binding), identifiers, Some(&stretching));
    let finish = state.finish(random, password, response, parameters).ok()?;
    Some((finish.message.serialize().to_vec(), finish.session_key.to_vec()))
}

/// Calls `ServerLogin::finish`. The state is the session key with the expected
/// finalization behind it: the key is given for that finalization and no other.
#[verifier::external_body]
pub(crate) fn accept_login(
    state: &[u8],
    finalization: &[u8],
    binding: &[u8],
    client: &[u8],
    server: &[u8],
) -> (session_key: Option<Vec<u8>>)
    requires
        state@.len() == SERVER_LOGIN_SIZE,
        finalization@.len() == CREDENTIAL_FINALIZATION_SIZE,
        binding@.len() <= u16::MAX,
    ensures
        match session_key {
            Some(key) => finalization@ == state@.skip(64) && key@ == state@.take(64),
            None => finalization@ != state@.skip(64),
        },
{
    let state = ServerLogin::<Suite>::deserialize(state).ok()?;
    let finalization = CredentialFinalization::deserialize(finalization).ok()?;
    let identifiers = Identifiers { client: Some(client), server: Some(server) };
    let parameters = ServerLoginParameters { context: Some(binding), identifiers };
    Some(state.finish(finalization, parameters).ok()?.session_key.to_vec())
}

} // verus!
