//! The life of one server-side connection: it must log in first, then every
//! chat message it sends is checked against the name it logged in with.
//!
//! The handler that owns the socket feeds each outcome of a read, and each
//! verdict of the credential store, to a `Connection`, and performs the
//! `Action` that comes back.
use vstd::prelude::*;
use crate::protocol::{ChatMessage, ChatProtocolError, Datagram, DatagramModel, MessageModel};

verus! {

/// Why the server ends a connection.
#[derive(Clone, Copy, Debug, PartialEq, Eq, Structural)]
pub enum ServerError {
    /// A lock that guards shared state was found broken.
    MutexPoisoned,
    /// The transport failed or the client went away.
    BrokenStream,
    /// The first datagram was not a login, or the credentials were refused.
    LoginError,
    /// The first datagram arrived whole but could not be decoded.
    MalformedMessage,
    /// A message named a sender other than the logged-in user.
    SpoofingError,
    /// The credential store could not answer.
    StoreUnavailable,
}

/// What the credential store said of a login attempt.
#[derive(Clone, Copy, Debug, PartialEq, Eq, Structural)]
pub enum AuthVerdict {
    Accepted,
    Rejected,
    /// The store failed to answer.
    Unavailable,
}

/// Where a connection stands.
pub enum ConnectionState {
    /// Accepted; nothing read yet.
    Unauthenticated,
    /// A login for `username` is being checked.
    Authenticating { username: String },
    /// Logged in as `username`.
    Authenticated { username: String },
    /// Finished; nothing more happens on it.
    Closed,
}

/// What the handler must do next.
pub enum Action {
    /// Ask the credential store whether the pair is valid, and report the
    /// verdict with `on_auth`.
    Authenticate { username: String, password: String },
    /// Answer `LoginOk` and register the session under `username`.
    Admit { username: String },
    /// Answer `LoginFailed`, then close without registering.
    Refuse,
    /// Persist the message and broadcast it to every other session, then
    /// report with `on_persisted` whether persisting succeeded.
    Relay(ChatMessage),
    /// Nothing to do; read on.
    Ignore,
    /// Remove the session if it is registered, and close.
    Close(ServerError),
}

/// Mathematical value of a `ConnectionState`.
pub enum StateModel {
    Unauthenticated,
    Authenticating(Seq<char>),
    Authenticated(Seq<char>),
    Closed,
}

/// Mathematical value of an `Action`.
pub enum ActionModel {
    Authenticate { username: Seq<char>, password: Seq<char> },
    Admit(Seq<char>),
    Refuse,
    Relay(MessageModel),
    Ignore,
    Close(ServerError),
}

/// One thing that happens to a connection.
pub enum Input {
    /// The outcome of reading one datagram.
    Read(Result<DatagramModel, ChatProtocolError>),
    /// The verdict on a login attempt.
    Auth(AuthVerdict),
    /// Whether a relayed message was persisted.
    Persisted(bool),
}

impl View for ConnectionState {
    type V = StateModel;

    open spec fn view(&self) -> StateModel {
        match self {
            ConnectionState::Unauthenticated => StateModel::Unauthenticated,
            ConnectionState::Authenticating { username } => StateModel::Authenticating(username@),
            ConnectionState::Authenticated { username } => StateModel::Authenticated(username@),
            ConnectionState::Closed => StateModel::Closed,
        }
    }
}

impl View for Action {
    type V = ActionModel;

    open spec fn view(&self) -> ActionModel {
        match self {
            Action::Authenticate { username, password } => ActionModel::Authenticate {
                username: username@,
                password: password@,
            },
            Action::Admit { username } => ActionModel::Admit(username@),
            Action::Refuse => ActionModel::Refuse,
            Action::Relay(m) => ActionModel::Relay(m@),
            Action::Ignore => ActionModel::Ignore,
            Action::Close(e) => ActionModel::Close(*e),
        }
    }
}

/// The value of the outcome of a read.
pub open spec fn read_view(r: Result<Datagram, ChatProtocolError>) -> Result<
    DatagramModel,
    ChatProtocolError,
> {
    match r {
        Ok(d) => Ok(d@),
        Err(e) => Err(e),
    }
}

/// The next state and the action after a read.
pub open spec fn after_read(s: StateModel, r: Result<DatagramModel, ChatProtocolError>) -> (
    StateModel,
    ActionModel,
) {
    match s {
        StateModel::Unauthenticated => match r {
            Ok(DatagramModel::Login { username, password }) => (
                StateModel::Authenticating(username),
                ActionModel::Authenticate { username, password },
            ),
            Ok(_) => (StateModel::Closed, ActionModel::Close(ServerError::LoginError)),
            Err(ChatProtocolError::IOError) => (
                StateModel::Closed,
                ActionModel::Close(ServerError::BrokenStream),
            ),
            Err(ChatProtocolError::MalformedMessage) => (
                StateModel::Closed,
                ActionModel::Close(ServerError::MalformedMessage),
            ),
        },
        StateModel::Authenticated(user) => match r {
            Ok(DatagramModel::Message(m)) => if m.sender == user {
                (s, ActionModel::Relay(m))
            } else {
                (StateModel::Closed, ActionModel::Close(ServerError::SpoofingError))
            },
            Ok(_) => (s, ActionModel::Ignore),
            Err(ChatProtocolError::MalformedMessage) => (s, ActionModel::Ignore),
            Err(ChatProtocolError::IOError) => (
                StateModel::Closed,
                ActionModel::Close(ServerError::BrokenStream),
            ),
        },
        _ => (s, ActionModel::Ignore),
    }
}

/// The next state and the action after the store's verdict on a login.
pub open spec fn after_auth(s: StateModel, v: AuthVerdict) -> (StateModel, ActionModel) {
    match s {
        StateModel::Authenticating(user) => match v {
            AuthVerdict::Accepted => (StateModel::Authenticated(user), ActionModel::Admit(user)),
            AuthVerdict::Rejected => (StateModel::Closed, ActionModel::Refuse),
            AuthVerdict::Unavailable => (
                StateModel::Closed,
                ActionModel::Close(ServerError::StoreUnavailable),
            ),
        },
        _ => (s, ActionModel::Ignore),
    }
}

/// The next state and the action once the store has answered for a relayed
/// message: a failure to persist ends the connection.
pub open spec fn after_persist(s: StateModel, ok: bool) -> (StateModel, ActionModel) {
    match s {
        StateModel::Authenticated(_) => if ok {
            (s, ActionModel::Ignore)
        } else {
            (StateModel::Closed, ActionModel::Close(ServerError::StoreUnavailable))
        },
        _ => (s, ActionModel::Ignore),
    }
}

/// One step of the machine.
pub open spec fn step(s: StateModel, i: Input) -> (StateModel, ActionModel) {
    match i {
        Input::Read(r) => after_read(s, r),
        Input::Auth(v) => after_auth(s, v),
        Input::Persisted(ok) => after_persist(s, ok),
    }
}

/// The actions of a run from `s` over `inputs`, in order.
pub open spec fn run(s: StateModel, inputs: Seq<Input>) -> Seq<ActionModel>
    decreases inputs.len(),
{
    if inputs.len() == 0 {
        Seq::empty()
    } else {
        let (next, a) = step(s, inputs[0]);
        seq![a] + run(next, inputs.skip(1))
    }
}

/// The state after a run from `s` over `inputs`.
pub open spec fn final_state(s: StateModel, inputs: Seq<Input>) -> StateModel
    decreases inputs.len(),
{
    if inputs.len() == 0 {
        s
    } else {
        final_state(step(s, inputs[0]).0, inputs.skip(1))
    }
}

/// Whether a connection's session is in the registry after its actions, when
/// the server registers it on `Admit` and removes it on `Close`, starting from
/// `registered`.
pub open spec fn registered_after(registered: bool, acts: Seq<ActionModel>) -> bool
    decreases acts.len(),
{
    if acts.len() == 0 {
        registered
    } else {
        let now = match acts[0] {
            ActionModel::Admit(_) => true,
            ActionModel::Close(_) => false,
            _ => registered,
        };
        registered_after(now, acts.skip(1))
    }
}

/// A connection's session is in the registry exactly while the connection is
/// logged in and has neither failed nor closed, whatever happens to it.
pub proof fn lemma_registered_iff_authenticated(s: StateModel, inputs: Seq<Input>)
    ensures
        registered_after(s is Authenticated, run(s, inputs)) == (final_state(
            s,
            inputs,
        ) is Authenticated),
    decreases inputs.len(),
{
    if inputs.len() > 0 {
        let (next, a) = step(s, inputs[0]);
        lemma_registered_iff_authenticated(next, inputs.skip(1));
        let acts = run(s, inputs);
        assert(acts[0] == a);
        assert(acts.skip(1) =~= run(next, inputs.skip(1)));
    }
}

/// A closed connection stays closed and does nothing more, whatever happens.
pub proof fn lemma_closed_is_final(inputs: Seq<Input>)
    ensures
        run(StateModel::Closed, inputs).len() == inputs.len(),
        forall|i: int|
            0 <= i < inputs.len() ==> #[trigger] run(StateModel::Closed, inputs)[i]
                == ActionModel::Ignore,
    decreases inputs.len(),
{
    if inputs.len() > 0 {
        lemma_closed_is_final(inputs.skip(1));
        let acts = run(StateModel::Closed, inputs);
        assert forall|i: int| 0 <= i < inputs.len() implies #[trigger] acts[i]
            == ActionModel::Ignore by {
            if i > 0 {
                assert(acts[i] == run(StateModel::Closed, inputs.skip(1))[i - 1]);
            }
        }
    }
}

/// A refused login is answered with `LoginFailed`, and whatever follows, the
/// connection is never admitted to the registry.
pub proof fn lemma_refused_login_never_admitted(user: Seq<char>, rest: Seq<Input>)
    ensures
        ({
            let acts = run(
                StateModel::Authenticating(user),
                seq![Input::Auth(AuthVerdict::Rejected)] + rest,
            );
            &&& acts[0] == ActionModel::Refuse
            &&& forall|i: int| 0 <= i < acts.len() ==> !(#[trigger] acts[i] is Admit)
        }),
{
    let inputs = seq![Input::Auth(AuthVerdict::Rejected)] + rest;
    assert(inputs.skip(1) =~= rest);
    lemma_closed_is_final(rest);
    let acts = run(StateModel::Authenticating(user), inputs);
    assert forall|i: int| 0 <= i < acts.len() implies !(#[trigger] acts[i] is Admit) by {
        if i > 0 {
            assert(acts[i] == run(StateModel::Closed, rest)[i - 1]);
        }
    }
}

/// A message whose sender is not the logged-in user ends the connection with
/// `SpoofingError`; neither it nor anything after it is persisted or broadcast.
pub proof fn lemma_spoofed_message_never_relayed(
    user: Seq<char>,
    m: MessageModel,
    rest: Seq<Input>,
)
    requires
        m.sender != user,
    ensures
        ({
            let acts = run(
                StateModel::Authenticated(user),
                seq![Input::Read(Ok(DatagramModel::Message(m)))] + rest,
            );
            &&& acts[0] == ActionModel::Close(ServerError::SpoofingError)
            &&& forall|i: int| 0 <= i < acts.len() ==> !(#[trigger] acts[i] is Relay)
        }),
{
    let inputs = seq![Input::Read(Ok(DatagramModel::Message(m)))] + rest;
    assert(inputs.skip(1) =~= rest);
    lemma_closed_is_final(rest);
    let acts = run(StateModel::Authenticated(user), inputs);
    assert forall|i: int| 0 <= i < acts.len() implies !(#[trigger] acts[i] is Relay) by {
        if i > 0 {
            assert(acts[i] == run(StateModel::Closed, rest)[i - 1]);
        }
    }
}

/// Checks that a message names as its sender the user the connection logged
/// in as.
pub fn verify_message_sender(verified_username: &str, message: &ChatMessage) -> (r: Result<
    (),
    ServerError,
>)
    ensures
        message.sender@ == verified_username@ <==> r is Ok,
        r is Err ==> r == Err::<(), ServerError>(ServerError::SpoofingError),
{
    if crate::client::same_chars(message.sender.as_str(), verified_username) {
        Ok(())
    } else {
        Err(ServerError::SpoofingError)
    }
}

/// The state machine of one connection.
pub struct Connection {
    state: ConnectionState,
}

impl View for Connection {
    type V = StateModel;

    closed spec fn view(&self) -> StateModel {
        self.state@
    }
}

impl Connection {
    /// A connection that has just been accepted.
    pub fn new() -> (r: Connection)
        ensures
            r@ == StateModel::Unauthenticated,
    {
        Connection { state: ConnectionState::Unauthenticated }
    }

    /// Whether the connection has finished.
    pub fn is_closed(&self) -> (r: bool)
        ensures
            r == (self@ == StateModel::Closed),
    {
        match self.state {
            ConnectionState::Closed => true,
            _ => false,
        }
    }

    /// The name the connection logged in with, once it has.
    pub fn username(&self) -> (r: Option<&String>)
        ensures
            match self@ {
                StateModel::Authenticated(u) => (r matches Some(n) && n@ == u),
                _ => r is None,
            },
    {
        match &self.state {
            ConnectionState::Authenticated { username } => Some(username),
            _ => None,
        }
    }

    /// Takes the outcome of reading one datagram.
    pub fn on_read(&mut self, r: Result<Datagram, ChatProtocolError>) -> (a: Action)
        ensures
            (final(self)@, a@) == after_read(old(self)@, read_view(r)),
    {
        let mut state = ConnectionState::Closed;
        std::mem::swap(&mut self.state, &mut state);
        match state {
            ConnectionState::Unauthenticated => match r {
                Ok(Datagram::Login { username, password }) => {
                    self.state = ConnectionState::Authenticating { username: username.clone() };
                    Action::Authenticate { username, password }
                },
                Ok(_) => Action::Close(ServerError::LoginError),
                Err(ChatProtocolError::IOError) => Action::Close(ServerError::BrokenStream),
                Err(ChatProtocolError::MalformedMessage) => Action::Close(
                    ServerError::MalformedMessage,
                ),
            },
            ConnectionState::Authenticated { username } => match r {
                Ok(Datagram::Message(m)) => {
                    if verify_message_sender(username.as_str(), &m).is_ok() {
                        self.state = ConnectionState::Authenticated { username };
                        Action::Relay(m)
                    } else {
                        Action::Close(ServerError::SpoofingError)
                    }
                },
                Ok(_) => {
                    self.state = ConnectionState::Authenticated { username };
                    Action::Ignore
                },
                Err(ChatProtocolError::MalformedMessage) => {
                    self.state = ConnectionState::Authenticated { username };
                    Action::Ignore
                },
                Err(ChatProtocolError::IOError) => Action::Close(ServerError::BrokenStream),
            },
            other => {
                self.state = other;
                Action::Ignore
            },
        }
    }

    /// Takes the credential store's verdict on the pending login.
    pub fn on_auth(&mut self, v: AuthVerdict) -> (a: Action)
        ensures
            (final(self)@, a@) == after_auth(old(self)@, v),
    {
        let mut state = ConnectionState::Closed;
        std::mem::swap(&mut self.state, &mut state);
        match state {
            ConnectionState::Authenticating { username } => match v {
                AuthVerdict::Accepted => {
                    self.state = ConnectionState::Authenticated { username: username.clone() };
                    Action::Admit { username }
                },
                AuthVerdict::Rejected => Action::Refuse,
                AuthVerdict::Unavailable => Action::Close(ServerError::StoreUnavailable),
            },
            other => {
                self.state = other;
                Action::Ignore
            },
        }
    }

    /// Takes the store's answer for the message last relayed.
    pub fn on_persisted(&mut self, ok: bool) -> (a: Action)
        ensures
            (final(self)@, a@) == after_persist(old(self)@, ok),
    {
        match &self.state {
            ConnectionState::Authenticated { .. } => {
                if ok {
                    Action::Ignore
                } else {
                    self.state = ConnectionState::Closed;
                    Action::Close(ServerError::StoreUnavailable)
                }
            },
            _ => Action::Ignore,
        }
    }
}

} // verus!
