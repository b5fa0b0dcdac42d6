use vstd::prelude::*;

verus! {

pub const MAX_SECRET_BYTES: usize = 16384;

#[derive(Debug, Clone, Copy, PartialEq, Eq, Structural)]
pub enum AuthenticationSecretState {
    Empty,
    Complete,
    Partial,
}

#[derive(Debug, Clone, Copy, PartialEq, Eq, Hash, Structural)]
pub enum SecretKey {
    AccessToken,
    RefreshToken,
    SubscriptionCredential,
}

/// The name a key is stored under.
pub open spec fn spec_storage_name(key: SecretKey) -> Seq<char> {
    match key {
        SecretKey::AccessToken => "orange.access-token"@,
        SecretKey::RefreshToken => "orange.refresh-token"@,
        SecretKey::SubscriptionCredential => "orange.subscription-credential"@,
    }
}

impl SecretKey {
    pub fn storage_name(self) -> (name: &'static str)
        ensures
            name@ == spec_storage_name(self),
    {
        match self {
            SecretKey::AccessToken => "orange.access-token",
            SecretKey::RefreshToken => "orange.refresh-token",
            SecretKey::SubscriptionCredential => "orange.subscription-credential",
        }
    }
}

/// The keys that belong to a signed-in user, in the order they are handled.
pub open spec fn user_secret_key(index: int) -> SecretKey {
    if index == 0 {
        SecretKey::AccessToken
    } else if index == 1 {
        SecretKey::RefreshToken
    } else {
        SecretKey::SubscriptionCredential
    }
}

fn user_secret_keys() -> (keys: [SecretKey; 3])
    ensures
        forall|i: int| 0 <= i < 3 ==> keys@[i] == user_secret_key(i),
{
    [SecretKey::AccessToken, SecretKey::RefreshToken, SecretKey::SubscriptionCredential]
}

/// A secret held in memory. Its bytes are erased whenever the storage layer has
/// consumed it.
pub struct SecretValue {
    bytes: Vec<u8>,
}

impl View for SecretValue {
    type V = Seq<u8>;

    closed spec fn view(&self) -> Seq<u8> {
        self.bytes@
    }
}

/// `Zeroize::zeroize` on a byte vector: every byte, and the spare capacity, is
/// overwritten with zero and the vector is left empty.
#[verifier::external_body]
pub(crate) fn zeroize_bytes(bytes: &mut Vec<u8>)
    ensures
        final(bytes)@ == Seq::<u8>::empty(),
{
    zeroize::Zeroize::zeroize(bytes);
}

/// `Zeroize::zeroize` on a string: its bytes are overwritten with zero and the
/// string is left empty.
#[verifier::external_body]
pub(crate) fn zeroize_string(text: &mut String)
    ensures
        final(text)@ == Seq::<char>::empty(),
{
    zeroize::Zeroize::zeroize(text);
}

impl SecretValue {
    pub open spec fn valid_length(len: nat) -> bool {
        1 <= len <= MAX_SECRET_BYTES
    }

    pub fn new(bytes: Vec<u8>) -> (r: Result<SecretValue, SecretStoreError>)
        ensures
            r is Ok <==> SecretValue::valid_length(bytes@.len()),
            r matches Ok(v) ==> v@ == bytes@,
            r matches Err(e) ==> e == SecretStoreError::InvalidValue,
    {
        let mut bytes = bytes;
        if bytes.len() == 0 || bytes.len() > MAX_SECRET_BYTES {
            zeroize_bytes(&mut bytes);
            return Err(SecretStoreError::InvalidValue);
        }
        Ok(SecretValue { bytes })
    }

    pub fn with_bytes<R, F: FnOnce(&[u8]) -> R>(&self, consumer: F) -> (r: R)
        requires
            forall|b: &[u8]| #[trigger] consumer.requires((b,)),
        ensures
            exists|b: &[u8]| b@ == self@ && #[trigger] consumer.ensures((b,), r),
    {
        consumer(self.bytes.as_slice())
    }

    pub fn is_cleared(&self) -> (r: bool)
        ensures
            r == (forall|i: int| 0 <= i < self@.len() ==> self@[i] == 0),
    {
        let mut i: usize = 0;
        while i < self.bytes.len()
            invariant
                i <= self.bytes@.len(),
                forall|j: int| 0 <= j < i ==> self.bytes@[j] == 0,
            decreases self.bytes@.len() - i,
        {
            if self.bytes[i] != 0 {
                assert(self@[i as int] != 0);
                return false;
            }
            i += 1;
        }
        true
    }

    fn clear(&mut self)
        ensures
            final(self)@ == Seq::<u8>::empty(),
    {
        zeroize_bytes(&mut self.bytes);
    }

    pub(crate) fn bytes_ref(&self) -> (b: &[u8])
        ensures
            b@ == self@,
    {
        self.bytes.as_slice()
    }
}

#[derive(Debug, Clone, Copy, PartialEq, Eq, Structural)]
pub enum SecretStoreError {
    InvalidValue,
    Unavailable,
    PermissionDenied,
    StorageFailure,
}

impl SecretStoreError {
    pub fn as_str(self) -> (text: &'static str)
        ensures
            text@ == (match self {
                SecretStoreError::InvalidValue => "secret-invalid-value"@,
                SecretStoreError::Unavailable => "secret-store-unavailable"@,
                SecretStoreError::PermissionDenied => "secret-store-permission-denied"@,
                SecretStoreError::StorageFailure => "secret-store-failure"@,
            }),
    {
        match self {
            SecretStoreError::InvalidValue => "secret-invalid-value",
            SecretStoreError::Unavailable => "secret-store-unavailable",
            SecretStoreError::PermissionDenied => "secret-store-permission-denied",
            SecretStoreError::StorageFailure => "secret-store-failure",
        }
    }
}

/// What a load hands back, with the secret taken by its bytes.
pub open spec fn loaded_view(r: Result<Option<SecretValue>, SecretStoreError>) -> Result<
    Option<Seq<u8>>,
    SecretStoreError,
> {
    match r {
        Ok(Some(v)) => Ok(Some(v@)),
        Ok(None) => Ok(None),
        Err(e) => Err(e),
    }
}

/// A successful answer without a value is `Ok(())`.
pub proof fn lemma_unit_answer(answer: Result<(), SecretStoreError>)
    ensures
        answer is Ok ==> answer == Ok::<(), SecretStoreError>(()),
{
    match answer {
        Ok(u) => {
            let v: () = ();
            assert(u == v);
        },
        Err(_) => {},
    }
}

/// The first failure among three answers, in order, or success.
pub open spec fn first_failure(
    a: Result<(), SecretStoreError>,
    b: Result<(), SecretStoreError>,
    c: Result<(), SecretStoreError>,
) -> Result<(), SecretStoreError> {
    if a is Err {
        a
    } else if b is Err {
        b
    } else {
        c
    }
}

/// Logging out of `backend` may end in `result`: the three user secrets are
/// deleted in order, each attempted, and the first failure is reported.
pub open spec fn logs_out<B: SecretStoreBackend>(backend: B, result: Result<(), SecretStoreError>) -> bool {
    exists|a: Result<(), SecretStoreError>, b: Result<(), SecretStoreError>, c: Result<
        (),
        SecretStoreError,
    >|
        backend.deletes(SecretKey::AccessToken, a) && backend.deletes(SecretKey::RefreshToken, b)
            && backend.deletes(SecretKey::SubscriptionCredential, c) && result == first_failure(
            a,
            b,
            c,
        )
}

/// A platform secret store. Implemented by each platform, which says, through
/// `loads`, `stores` and `deletes`, which answers its operations may give; this
/// crate relies on nothing else of an implementation.
pub trait SecretStoreBackend: Send + Sync {
    /// `answer` is one that a load of `key` may give.
    spec fn loads(&self, key: SecretKey, answer: Result<Option<Seq<u8>>, SecretStoreError>) -> bool;

    /// `answer` is one that storing `value` under `key` may give.
    spec fn stores(&self, key: SecretKey, value: Seq<u8>, answer: Result<(), SecretStoreError>) -> bool;

    /// `answer` is one that deleting `key` may give.
    spec fn deletes(&self, key: SecretKey, answer: Result<(), SecretStoreError>) -> bool;

    fn store(&self, key: SecretKey, value: &[u8]) -> (r: Result<(), SecretStoreError>)
        ensures
            self.stores(key, value@, r),
    ;

    fn load(&self, key: SecretKey) -> (r: Result<Option<SecretValue>, SecretStoreError>)
        ensures
            self.loads(key, loaded_view(r)),
    ;

    fn delete(&self, key: SecretKey) -> (r: Result<(), SecretStoreError>)
        ensures
            self.deletes(key, r),
    ;

    /// Deletes every user secret, attempting each key even after a failure, and
    /// reports the first failure.
    fn logout(&self) -> (r: Result<(), SecretStoreError>)
        ensures
            exists|a: Result<(), SecretStoreError>, b: Result<(), SecretStoreError>, c: Result<
                (),
                SecretStoreError,
            >|
                self.deletes(SecretKey::AccessToken, a) && self.deletes(SecretKey::RefreshToken, b)
                    && self.deletes(SecretKey::SubscriptionCredential, c) && r == first_failure(
                    a,
                    b,
                    c,
                ),
    {
        let a = self.delete(SecretKey::AccessToken);
        let b = self.delete(SecretKey::RefreshToken);
        let c = self.delete(SecretKey::SubscriptionCredential);
        let mut first_error: Option<SecretStoreError> = None;
        if let Err(error) = a {
            first_error = Some(error);
        } else if let Err(error) = b {
            first_error = Some(error);
        } else if let Err(error) = c {
            first_error = Some(error);
        }
        let r = first_result(first_error);
        proof {
            lemma_unit_answer(a);
            lemma_unit_answer(b);
            lemma_unit_answer(c);
            lemma_unit_answer(r);
        }
        assert(self.deletes(SecretKey::AccessToken, a));
        assert(self.deletes(SecretKey::RefreshToken, b));
        assert(r == first_failure(a, b, c));
        r
    }
}

/// `Ok` when nothing failed, otherwise the first failure.
pub fn first_result(first_error: Option<SecretStoreError>) -> (r: Result<(), SecretStoreError>)
    ensures
        match first_error {
            Some(e) => r == Err::<(), SecretStoreError>(e),
            None => r == Ok::<(), SecretStoreError>(()),
        },
{
    match first_error {
        Some(error) => Err(error),
        None => Ok(()),
    }
}

/// What the presence of the three user secrets says about the session.
pub open spec fn spec_authentication_state(
    access: bool,
    refresh: bool,
    subscription: bool,
) -> AuthenticationSecretState {
    if !access && !refresh && !subscription {
        AuthenticationSecretState::Empty
    } else if access && refresh {
        AuthenticationSecretState::Complete
    } else {
        AuthenticationSecretState::Partial
    }
}

/// A session is complete exactly when both the access token and the refresh
/// token are stored; nothing stored is an empty session; anything else (a
/// token without its partner, or a lone subscription credential) is partial.
pub proof fn law_authentication_state_classes(access: bool, refresh: bool, subscription: bool)
    ensures
        (spec_authentication_state(access, refresh, subscription)
            == AuthenticationSecretState::Complete) == (access && refresh),
        (spec_authentication_state(access, refresh, subscription)
            == AuthenticationSecretState::Empty) == (!access && !refresh && !subscription),
        (spec_authentication_state(access, refresh, subscription)
            == AuthenticationSecretState::Partial) == (!(access && refresh) && (access || refresh
            || subscription)),
{
}

pub fn classify_authentication_secrets(
    access: bool,
    refresh: bool,
    subscription: bool,
) -> (state: AuthenticationSecretState)
    ensures
        state == spec_authentication_state(access, refresh, subscription),
{
    match (access, refresh, subscription) {
        (false, false, false) => AuthenticationSecretState::Empty,
        (true, true, _) => AuthenticationSecretState::Complete,
        _ => AuthenticationSecretState::Partial,
    }
}

pub struct SecretStorage<B> {
    backend: B,
    calls: Ghost<Seq<SecretCall>>,
}

/// One call the storage made to its backend.
pub enum SecretCall {
    Load(SecretKey),
    Store(SecretKey),
    Delete(SecretKey),
}

/// The deletions of a logout, in order: the access token, the refresh
/// token, the subscription credential.
pub open spec fn logout_calls() -> Seq<SecretCall> {
    seq![
        SecretCall::Delete(SecretKey::AccessToken),
        SecretCall::Delete(SecretKey::RefreshToken),
        SecretCall::Delete(SecretKey::SubscriptionCredential),
    ]
}

/// Whether a call deletes a secret.
pub open spec fn is_deletion(call: SecretCall) -> bool {
    call is Delete
}

/// A stored secret, or its absence, taken by its bytes.
pub open spec fn secret_view(value: Option<SecretValue>) -> Option<Seq<u8>> {
    match value {
        Some(v) => Some(v@),
        None => None,
    }
}

/// The entries of a restore list, taken by their bytes.
pub open spec fn entries_view(entries: Seq<(SecretKey, Option<SecretValue>)>) -> Seq<
    (SecretKey, Option<Seq<u8>>),
> {
    entries.map_values(|e: (SecretKey, Option<SecretValue>)| (e.0, secret_view(e.1)))
}

/// The first failure of a sequence of answers, in order, or success.
pub open spec fn first_failure_of(answers: Seq<Result<(), SecretStoreError>>) -> Result<
    (),
    SecretStoreError,
>
    decreases answers.len(),
{
    if answers.len() == 0 {
        Ok(())
    } else {
        let earlier = first_failure_of(answers.drop_last());
        if earlier is Err {
            earlier
        } else {
            answers.last()
        }
    }
}

/// What putting one entry back may answer: a stored value is stored again
/// (an empty one is refused), an absent one is deleted.
pub open spec fn restore_answer<B: SecretStoreBackend>(
    backend: B,
    entry: (SecretKey, Option<Seq<u8>>),
    answer: Result<(), SecretStoreError>,
) -> bool {
    match entry.1 {
        Some(bytes) => if bytes.len() == 0 {
            answer == Err::<(), SecretStoreError>(SecretStoreError::InvalidValue)
        } else {
            backend.stores(entry.0, bytes, answer)
        },
        None => backend.deletes(entry.0, answer),
    }
}

/// Putting `entries` back, one after the other, may end in `result`.
pub open spec fn restores<B: SecretStoreBackend>(
    backend: B,
    entries: Seq<(SecretKey, Option<Seq<u8>>)>,
    result: Result<(), SecretStoreError>,
) -> bool {
    exists|answers: Seq<Result<(), SecretStoreError>>|
        answers.len() == entries.len() && (forall|i: int|
            0 <= i < entries.len() ==> restore_answer(backend, entries[i], #[trigger] answers[i]))
            && result == first_failure_of(answers)
}

/// The session state that three answered loads give: the first failure, or
/// the classification of which secrets are present.
pub open spec fn authentication_outcome(
    access: Result<Option<Seq<u8>>, SecretStoreError>,
    refresh: Result<Option<Seq<u8>>, SecretStoreError>,
    subscription: Result<Option<Seq<u8>>, SecretStoreError>,
) -> Result<AuthenticationSecretState, SecretStoreError> {
    match access {
        Err(e) => Err(e),
        Ok(a) => match refresh {
            Err(e) => Err(e),
            Ok(f) => match subscription {
                Err(e) => Err(e),
                Ok(s) => Ok(spec_authentication_state(a is Some, f is Some, s is Some)),
            },
        },
    }
}

/// Reading the session state from `backend` may end in `result`: the access
/// token, the refresh token and the subscription credential are loaded in that
/// order, a failure ending the loads, and the present ones classified.
pub open spec fn reads_state<B: SecretStoreBackend>(
    backend: B,
    result: Result<AuthenticationSecretState, SecretStoreError>,
) -> bool {
    exists|
        a: Result<Option<Seq<u8>>, SecretStoreError>,
        f: Result<Option<Seq<u8>>, SecretStoreError>,
        s: Result<Option<Seq<u8>>, SecretStoreError>,
    |
        backend.loads(SecretKey::AccessToken, a) && (a is Ok ==> backend.loads(
            SecretKey::RefreshToken,
            f,
        )) && (a is Ok && f is Ok ==> backend.loads(SecretKey::SubscriptionCredential, s))
            && result == #[trigger] authentication_outcome(a, f, s)
}

/// What storing `value` under `key` through the storage may answer: an empty
/// value is refused before the backend is asked.
pub open spec fn store_answer<B: SecretStoreBackend>(
    backend: B,
    key: SecretKey,
    value: Seq<u8>,
    answer: Result<(), SecretStoreError>,
) -> bool {
    if value.len() == 0 {
        answer == Err::<(), SecretStoreError>(SecretStoreError::InvalidValue)
    } else {
        backend.stores(key, value, answer)
    }
}

/// The steps of writing a new session, each taken only after the one before
/// succeeded: store the access token, store the refresh token, delete the
/// subscription credential.
pub open spec fn update_steps<B: SecretStoreBackend>(
    backend: B,
    access: Seq<u8>,
    refresh: Seq<u8>,
    a: Result<(), SecretStoreError>,
    f: Result<(), SecretStoreError>,
    d: Result<(), SecretStoreError>,
) -> bool {
    &&& store_answer(backend, SecretKey::AccessToken, access, a)
    &&& (a is Ok ==> store_answer(backend, SecretKey::RefreshToken, refresh, f))
    &&& (a is Ok && f is Ok ==> backend.deletes(SecretKey::SubscriptionCredential, d))
}

/// Writing a new session may end in `result`: the first failing step's error,
/// or success.
pub open spec fn updates<B: SecretStoreBackend>(
    backend: B,
    access: Seq<u8>,
    refresh: Seq<u8>,
    result: Result<(), SecretStoreError>,
) -> bool {
    exists|a: Result<(), SecretStoreError>, f: Result<(), SecretStoreError>, d: Result<(), SecretStoreError>|
        #[trigger] update_steps(backend, access, refresh, a, f, d) && result == first_failure(a, f, d)
}

/// A failed write, with error `e`, once the previous `entries` were put back:
/// `e` stands when all of them went back, `StorageFailure` otherwise.
pub open spec fn rolled_back<B: SecretStoreBackend>(
    backend: B,
    entries: Seq<(SecretKey, Option<Seq<u8>>)>,
    e: SecretStoreError,
    result: Result<(), SecretStoreError>,
) -> bool {
    exists|restored: Result<(), SecretStoreError>|
        #[trigger] restores(backend, entries, restored) && result == (if restored is Ok {
            Err::<(), SecretStoreError>(e)
        } else {
            Err::<(), SecretStoreError>(SecretStoreError::StorageFailure)
        })
}

/// A write that answered `written`, after the previous `entries` were read:
/// success, or the write's failure with the previous entries put back.
pub open spec fn write_outcome<B: SecretStoreBackend>(
    backend: B,
    entries: Seq<(SecretKey, Option<Seq<u8>>)>,
    written: Result<(), SecretStoreError>,
    result: Result<(), SecretStoreError>,
) -> bool {
    match written {
        Ok(_) => result == Ok::<(), SecretStoreError>(()),
        Err(e) => rolled_back(backend, entries, e, result),
    }
}

/// The three loads of the previous session, each taken only after the one
/// before succeeded.
pub open spec fn session_loads<B: SecretStoreBackend>(
    backend: B,
    a: Result<Option<Seq<u8>>, SecretStoreError>,
    f: Result<Option<Seq<u8>>, SecretStoreError>,
    s: Result<Option<Seq<u8>>, SecretStoreError>,
) -> bool {
    &&& backend.loads(SecretKey::AccessToken, a)
    &&& (a is Ok ==> backend.loads(SecretKey::RefreshToken, f))
    &&& (a is Ok && f is Ok ==> backend.loads(SecretKey::SubscriptionCredential, s))
}

/// The new session was written and its outcome handled, the previous
/// session being `entries`.
pub open spec fn session_written<B: SecretStoreBackend>(
    backend: B,
    entries: Seq<(SecretKey, Option<Seq<u8>>)>,
    access: Seq<u8>,
    refresh: Seq<u8>,
    result: Result<(), SecretStoreError>,
) -> bool {
    exists|written: Result<(), SecretStoreError>|
        #[trigger] updates(backend, access, refresh, written) && write_outcome(
            backend,
            entries,
            written,
            result,
        )
}

/// Replacing the session in `backend` with `access` and `refresh` may end in
/// `result`: the previous secrets are loaded, a failed load ending it with its
/// error; then the new session is written, and a failed write puts the
/// previous secrets back, its error standing when that worked and
/// `StorageFailure` otherwise.
pub open spec fn session_replaced<B: SecretStoreBackend>(
    backend: B,
    access: Seq<u8>,
    refresh: Seq<u8>,
    result: Result<(), SecretStoreError>,
) -> bool {
    exists|
        a: Result<Option<Seq<u8>>, SecretStoreError>,
        f: Result<Option<Seq<u8>>, SecretStoreError>,
        s: Result<Option<Seq<u8>>, SecretStoreError>,
    |
        #[trigger] session_loads(backend, a, f, s) && if a is Err {
            result == Err::<(), SecretStoreError>(a->Err_0)
        } else if f is Err {
            result == Err::<(), SecretStoreError>(f->Err_0)
        } else if s is Err {
            result == Err::<(), SecretStoreError>(s->Err_0)
        } else {
            session_written(
                backend,
                seq![
                    (SecretKey::AccessToken, a->Ok_0),
                    (SecretKey::RefreshToken, f->Ok_0),
                    (SecretKey::SubscriptionCredential, s->Ok_0),
                ],
                access,
                refresh,
                result,
            )
        }
}

/// The new credential was written and its outcome handled, the previous one
/// being `entries`.
pub open spec fn credential_written<B: SecretStoreBackend>(
    backend: B,
    entries: Seq<(SecretKey, Option<Seq<u8>>)>,
    value: Seq<u8>,
    result: Result<(), SecretStoreError>,
) -> bool {
    exists|written: Result<(), SecretStoreError>|
        #[trigger] store_answer(backend, SecretKey::SubscriptionCredential, value, written)
            && write_outcome(backend, entries, written, result)
}

/// Replacing the subscription credential in `backend` with `value` may end in
/// `result`: the previous credential is loaded, a failed load ending it with
/// its error; then the new one is stored, and a failed store puts the
/// previous one back, its error standing when that worked and
/// `StorageFailure` otherwise.
pub open spec fn credential_replaced<B: SecretStoreBackend>(
    backend: B,
    value: Seq<u8>,
    result: Result<(), SecretStoreError>,
) -> bool {
    exists|previous: Result<Option<Seq<u8>>, SecretStoreError>|
        #[trigger] backend.loads(SecretKey::SubscriptionCredential, previous) && if previous is Err {
            result == Err::<(), SecretStoreError>(previous->Err_0)
        } else {
            credential_written(
                backend,
                seq![(SecretKey::SubscriptionCredential, previous->Ok_0)],
                value,
                result,
            )
        }
}

impl<B: SecretStoreBackend> SecretStorage<B> {
    pub fn new(backend: B) -> (storage: Self)
        ensures
            storage.backend() == backend,
            storage.calls() == Seq::<SecretCall>::empty(),
    {
        SecretStorage { backend, calls: Ghost(Seq::empty()) }
    }

    pub closed spec fn backend(&self) -> B {
        self.backend
    }

    /// The calls made to the backend so far, in order.
    pub closed spec fn calls(&self) -> Seq<SecretCall> {
        self.calls@
    }

    /// Hands the secret to the backend and erases it, whatever the outcome; an
    /// empty secret is refused without reaching the backend.
    pub fn store(&mut self, key: SecretKey, value: &mut SecretValue) -> (r: Result<
        (),
        SecretStoreError,
    >)
        ensures
            final(value)@ == Seq::<u8>::empty(),
            old(value)@.len() == 0 ==> r == Err::<(), SecretStoreError>(
                SecretStoreError::InvalidValue,
            ),
            old(value)@.len() > 0 ==> old(self).backend().stores(key, old(value)@, r),
            final(self).backend() == old(self).backend(),
            final(self).calls() == if old(value)@.len() == 0 {
                old(self).calls()
            } else {
                old(self).calls().push(SecretCall::Store(key))
            },
    {
        let result = if value.bytes.len() == 0 {
            Err(SecretStoreError::InvalidValue)
        } else {
            let r = self.backend.store(key, value.bytes_ref());
            proof {
                self.calls@ = self.calls@.push(SecretCall::Store(key));
            }
            r
        };
        value.clear();
        result
    }

    pub fn load(&mut self, key: SecretKey) -> (r: Result<Option<SecretValue>, SecretStoreError>)
        ensures
            old(self).backend().loads(key, loaded_view(r)),
            final(self).backend() == old(self).backend(),
            final(self).calls() == old(self).calls().push(SecretCall::Load(key)),
    {
        let r = self.backend.load(key);
        proof {
            self.calls@ = self.calls@.push(SecretCall::Load(key));
        }
        r
    }

    pub fn delete(&mut self, key: SecretKey) -> (r: Result<(), SecretStoreError>)
        ensures
            old(self).backend().deletes(key, r),
            final(self).backend() == old(self).backend(),
            final(self).calls() == old(self).calls().push(SecretCall::Delete(key)),
    {
        let r = self.backend.delete(key);
        proof {
            self.calls@ = self.calls@.push(SecretCall::Delete(key));
        }
        r
    }

    /// Deletes every user secret, the access token, the refresh token and the
    /// subscription credential in that order, attempting each key even after
    /// a failure, and reports the first failure.
    pub fn logout(&mut self) -> (r: Result<(), SecretStoreError>)
        ensures
            logs_out(old(self).backend(), r),
            final(self).backend() == old(self).backend(),
            final(self).calls() == old(self).calls() + logout_calls(),
    {
        let a = self.delete(SecretKey::AccessToken);
        let b = self.delete(SecretKey::RefreshToken);
        let c = self.delete(SecretKey::SubscriptionCredential);
        let mut first_error: Option<SecretStoreError> = None;
        if let Err(error) = a {
            first_error = Some(error);
        } else if let Err(error) = b {
            first_error = Some(error);
        } else if let Err(error) = c {
            first_error = Some(error);
        }
        let r = first_result(first_error);
        proof {
            lemma_unit_answer(a);
            lemma_unit_answer(b);
            lemma_unit_answer(c);
            lemma_unit_answer(r);
        }
        assert(r == first_failure(a, b, c));
        assert(self.calls() =~= old(self).calls() + logout_calls());
        r
    }

    /// Loads the access token, the refresh token and the subscription
    /// credential, in that order, and classifies which are present; a load
    /// failure is passed on and ends the loads.
    pub fn authentication_state(&mut self) -> (r: Result<AuthenticationSecretState, SecretStoreError>)
        ensures
            final(self).backend() == old(self).backend(),
            reads_state(old(self).backend(), r),
    {
        let access = self.load(SecretKey::AccessToken);
        let ghost a = loaded_view(access);
        let access = match access {
            Ok(v) => v.is_some(),
            Err(e) => {
                assert(Err::<AuthenticationSecretState, SecretStoreError>(e)
                    == authentication_outcome(a, a, a));
                return Err(e);
            },
        };
        let refresh = self.load(SecretKey::RefreshToken);
        let ghost f = loaded_view(refresh);
        let refresh = match refresh {
            Ok(v) => v.is_some(),
            Err(e) => {
                assert(Err::<AuthenticationSecretState, SecretStoreError>(e)
                    == authentication_outcome(a, f, f));
                return Err(e);
            },
        };
        let subscription = self.load(SecretKey::SubscriptionCredential);
        let ghost c = loaded_view(subscription);
        let subscription = match subscription {
            Ok(v) => v.is_some(),
            Err(e) => {
                assert(Err::<AuthenticationSecretState, SecretStoreError>(e)
                    == authentication_outcome(a, f, c));
                return Err(e);
            },
        };
        let state = classify_authentication_secrets(access, refresh, subscription);
        assert(Ok::<AuthenticationSecretState, SecretStoreError>(state) == authentication_outcome(
            a,
            f,
            c,
        ));
        Ok(state)
    }

    /// Stores a new access and refresh token and removes the subscription
    /// credential; on failure the previous secrets are put back. Both inputs are
    /// erased whatever the outcome.
    pub fn replace_authentication(
        &mut self,
        access: &mut SecretValue,
        refresh: &mut SecretValue,
    ) -> (r: Result<(), SecretStoreError>)
        ensures
            final(self).backend() == old(self).backend(),
            final(access)@ == Seq::<u8>::empty(),
            final(refresh)@ == Seq::<u8>::empty(),
            r is Ok ==> old(self).backend().stores(SecretKey::AccessToken, old(access)@, Ok(()))
                && old(self).backend().stores(SecretKey::RefreshToken, old(refresh)@, Ok(()))
                && old(self).backend().deletes(SecretKey::SubscriptionCredential, Ok(())),
            session_replaced(old(self).backend(), old(access)@, old(refresh)@, r),
    {
        let result = self.try_replace_authentication(access, refresh);
        access.clear();
        refresh.clear();
        result
    }

    /// Stores a new subscription credential; on failure the previous one is put
    /// back. The input is erased whatever the outcome.
    pub fn replace_subscription_credential(&mut self, credential: &mut SecretValue) -> (r: Result<
        (),
        SecretStoreError,
    >)
        ensures
            final(self).backend() == old(self).backend(),
            final(credential)@ == Seq::<u8>::empty(),
            r is Ok ==> old(self).backend().stores(
                SecretKey::SubscriptionCredential,
                old(credential)@,
                Ok(()),
            ),
            credential_replaced(old(self).backend(), old(credential)@, r),
    {
        let result = self.try_replace_subscription_credential(credential);
        credential.clear();
        result
    }

    pub fn clear_subscription_credential(&mut self) -> (r: Result<(), SecretStoreError>)
        ensures
            final(self).backend() == old(self).backend(),
            old(self).backend().deletes(SecretKey::SubscriptionCredential, r),
            final(self).calls() == old(self).calls().push(
                SecretCall::Delete(SecretKey::SubscriptionCredential),
            ),
    {
        self.delete(SecretKey::SubscriptionCredential)
    }

    /// Stores the access token, then the refresh token, then removes the
    /// subscription credential, stopping at the first failure.
    fn update_authentication(
        &mut self,
        access: &mut SecretValue,
        refresh: &mut SecretValue,
    ) -> (r: Result<(), SecretStoreError>)
        ensures
            final(self).backend() == old(self).backend(),
            final(access)@ == Seq::<u8>::empty(),
            r is Ok ==> final(refresh)@ == Seq::<u8>::empty(),
            old(access)@.len() == 0 ==> r == Err::<(), SecretStoreError>(
                SecretStoreError::InvalidValue,
            ),
            old(refresh)@.len() == 0 ==> r is Err,
            r is Ok ==> old(self).backend().stores(SecretKey::AccessToken, old(access)@, Ok(()))
                && old(self).backend().stores(SecretKey::RefreshToken, old(refresh)@, Ok(()))
                && old(self).backend().deletes(SecretKey::SubscriptionCredential, Ok(())),
            updates(old(self).backend(), old(access)@, old(refresh)@, r),
    {
        let ghost access0 = access@;
        let ghost refresh0 = refresh@;
        let stored_access = self.store(SecretKey::AccessToken, access);
        proof {
            lemma_unit_answer(stored_access);
        }
        if let Err(error) = stored_access {
            assert(update_steps(
                self.backend(),
                access0,
                refresh0,
                stored_access,
                stored_access,
                stored_access,
            ));
            return Err(error);
        }
        let stored_refresh = self.store(SecretKey::RefreshToken, refresh);
        proof {
            lemma_unit_answer(stored_refresh);
        }
        if let Err(error) = stored_refresh {
            assert(update_steps(
                self.backend(),
                access0,
                refresh0,
                stored_access,
                stored_refresh,
                stored_refresh,
            ));
            return Err(error);
        }
        let deleted = self.delete(SecretKey::SubscriptionCredential);
        proof {
            lemma_unit_answer(deleted);
        }
        assert(update_steps(self.backend(), access0, refresh0, stored_access, stored_refresh, deleted));
        deleted
    }

    fn try_replace_authentication(
        &mut self,
        access: &mut SecretValue,
        refresh: &mut SecretValue,
    ) -> (r: Result<(), SecretStoreError>)
        ensures
            final(self).backend() == old(self).backend(),
            r is Ok ==> final(access)@ == Seq::<u8>::empty() && final(refresh)@ == Seq::<
                u8,
            >::empty(),
            old(access)@.len() == 0 || old(refresh)@.len() == 0 ==> r is Err,
            r is Ok ==> old(self).backend().stores(SecretKey::AccessToken, old(access)@, Ok(()))
                && old(self).backend().stores(SecretKey::RefreshToken, old(refresh)@, Ok(()))
                && old(self).backend().deletes(SecretKey::SubscriptionCredential, Ok(())),
            session_replaced(old(self).backend(), old(access)@, old(refresh)@, r),
    {
        let ghost access0 = access@;
        let ghost refresh0 = refresh@;
        let keys = user_secret_keys();
        assert(keys@[0] == user_secret_key(0) && keys@[1] == user_secret_key(1) && keys@[2]
            == user_secret_key(2));
        let loaded_access = self.load(keys[0]);
        let ghost a = loaded_view(loaded_access);
        let previous_access = match loaded_access {
            Ok(value) => value,
            Err(error) => {
                assert(session_loads(self.backend(), a, a, a));
                return Err(error);
            },
        };
        let loaded_refresh = self.load(keys[1]);
        let ghost f = loaded_view(loaded_refresh);
        let previous_refresh = match loaded_refresh {
            Ok(value) => value,
            Err(error) => {
                assert(session_loads(self.backend(), a, f, f));
                return Err(error);
            },
        };
        let loaded_credential = self.load(keys[2]);
        let ghost c = loaded_view(loaded_credential);
        let previous_credential = match loaded_credential {
            Ok(value) => value,
            Err(error) => {
                assert(session_loads(self.backend(), a, f, c));
                return Err(error);
            },
        };
        assert(session_loads(self.backend(), a, f, c));
        let mut previous: Vec<(SecretKey, Option<SecretValue>)> = Vec::new();
        previous.push((keys[0], previous_access));
        previous.push((keys[1], previous_refresh));
        previous.push((keys[2], previous_credential));
        let ghost entries = entries_view(previous@);
        assert(entries =~= seq![
            (SecretKey::AccessToken, a->Ok_0),
            (SecretKey::RefreshToken, f->Ok_0),
            (SecretKey::SubscriptionCredential, c->Ok_0),
        ]);
        let update = self.update_authentication(access, refresh);
        if let Err(error) = update {
            let restored = self.restore_user_secrets(previous);
            proof {
                lemma_unit_answer(restored);
            }
            let result = if restored.is_err() {
                Err(SecretStoreError::StorageFailure)
            } else {
                Err(error)
            };
            assert(rolled_back(self.backend(), entries, error, result));
            assert(session_written(self.backend(), entries, access0, refresh0, result));
            return result;
        }
        proof {
            lemma_unit_answer(update);
        }
        assert(session_written(self.backend(), entries, access0, refresh0, Ok(())));
        Ok(())
    }


    fn try_replace_subscription_credential(&mut self, credential: &mut SecretValue) -> (r: Result<
        (),
        SecretStoreError,
    >)
        ensures
            final(self).backend() == old(self).backend(),
            r is Ok ==> final(credential)@ == Seq::<u8>::empty(),
            old(credential)@.len() == 0 ==> r is Err,
            r is Ok ==> old(self).backend().stores(
                SecretKey::SubscriptionCredential,
                old(credential)@,
                Ok(()),
            ),
            credential_replaced(old(self).backend(), old(credential)@, r),
    {
        let ghost value0 = credential@;
        let key = SecretKey::SubscriptionCredential;
        let loaded = self.load(key);
        let ghost p = loaded_view(loaded);
        assert(self.backend().loads(key, p));
        let previous = match loaded {
            Ok(previous) => previous,
            Err(error) => {
                return Err(error);
            },
        };
        let stored = self.store(key, credential);
        proof {
            lemma_unit_answer(stored);
        }
        assert(store_answer(self.backend(), key, value0, stored));
        let mut restore: Vec<(SecretKey, Option<SecretValue>)> = Vec::new();
        restore.push((key, previous));
        let ghost entries = entries_view(restore@);
        assert(entries =~= seq![(SecretKey::SubscriptionCredential, p->Ok_0)]);
        if let Err(error) = stored {
            let restored = self.restore_user_secrets(restore);
            proof {
                lemma_unit_answer(restored);
            }
            let result = if restored.is_err() {
                Err(SecretStoreError::StorageFailure)
            } else {
                Err(error)
            };
            assert(rolled_back(self.backend(), entries, error, result));
            assert(credential_written(self.backend(), entries, value0, result));
            return result;
        }
        assert(credential_written(self.backend(), entries, value0, Ok(())));
        Ok(())
    }


    /// Puts each secret back (deleting the ones that were absent), attempting
    /// every entry even after a failure, and reports the first failure.
    fn restore_user_secrets(&mut self, previous: Vec<(SecretKey, Option<SecretValue>)>) -> (r: Result<
        (),
        SecretStoreError,
    >)
        ensures
            final(self).backend() == old(self).backend(),
            restores(old(self).backend(), entries_view(previous@), r),
            previous@.len() == 0 ==> r is Ok,
    {
        let ghost entries = entries_view(previous@);
        let ghost total = previous@.len();
        let mut previous = previous;
        let mut first_error: Option<SecretStoreError> = None;
        let ghost mut answers: Seq<Result<(), SecretStoreError>> = Seq::empty();
        while previous.len() > 0
            invariant
                self.backend() == old(self).backend(),
                entries.len() == total,
                answers.len() + previous@.len() == total,
                entries_view(previous@) == entries.subrange(answers.len() as int, total as int),
                forall|i: int|
                    0 <= i < answers.len() ==> restore_answer(
                        self.backend(),
                        entries[i],
                        #[trigger] answers[i],
                    ),
                first_failure_of(answers) == match first_error {
                    Some(e) => Err::<(), SecretStoreError>(e),
                    None => Ok(()),
                },
            decreases previous@.len(),
        {
            let ghost k = answers.len() as int;
            let ghost before = previous@;
            let (key, value) = previous.remove(0);
            proof {
                assert(entries_view(before)[0] == entries[k]);
                assert(previous@ =~= before.subrange(1, before.len() as int));
                assert(entries_view(previous@) =~= entries_view(before).subrange(
                    1,
                    before.len() as int,
                ));
                assert(entries_view(previous@) =~= entries.subrange(k + 1, total as int));
            }
            let ghost entry = (key, secret_view(value));
            assert(entry == entries[k]);
            let result = match value {
                Some(value) => {
                    let mut value = value;
                    self.store(key, &mut value)
                },
                None => self.delete(key),
            };
            assert(restore_answer(self.backend(), entries[k], result));
            proof {
                lemma_unit_answer(result);
                lemma_unit_answer(first_failure_of(answers));
            }
            proof {
                let next = answers.push(result);
                assert(next.drop_last() =~= answers);
                answers = next;
            }
            if let Err(error) = result {
                if first_error.is_none() {
                    first_error = Some(error);
                }
            }
            assert(first_failure_of(answers) == match first_error {
                Some(e) => Err::<(), SecretStoreError>(e),
                None => Ok(()),
            });
        }
        let r = first_result(first_error);
        proof {
            lemma_unit_answer(r);
            lemma_unit_answer(first_failure_of(answers));
        }
        assert(answers.len() == entries.len());
        assert(forall|i: int|
            0 <= i < entries.len() ==> restore_answer(self.backend(), entries[i], #[trigger] answers[i]));
        assert(r == first_failure_of(answers));
        r
    }
}

} // verus!
