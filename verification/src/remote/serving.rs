//! The loop that keeps an exec-server registered: it registers, connects, serves
//! and pauses, over and over. The relay is the one that was chosen at the start;
//! a failure never leads to the other one.
use vstd::prelude::*;
use super::noise::environment_id_refusal;
use super::noise::identity_error;
use super::noise::is_registration_id;
use super::noise::validate_environment_id;
use super::noise::validate_executor_registration_id;
use super::noise::NOISE_RELAY_SECURITY_PROFILE;
use super::registry::next_pause;
use super::registry::ReconnectBackoff;
use super::registry::RemoteRelayProtocol;
use crate::error::protocol_error;
use crate::error::ExecServerError;
use crate::noise_channel::NoiseChannelIdentity;
use crate::text::chars::chars_of;
use crate::text::chars::push_text;
use crate::text::chars::same_text;
use crate::text::chars::string_of;

verus! {

/// What the registry answers to a registration.
#[derive(Debug, Clone, PartialEq, Eq)]
pub enum Registration {
    /// For the cleartext relay.
    Legacy {
        /// The environment.
        environment_id: String,
        /// The address of the rendezvous.
        url: String,
    },
    /// For the encrypted relay.
    Noise {
        /// The environment.
        environment_id: String,
        /// The address of the rendezvous.
        url: String,
        /// The security profile.
        security_profile: String,
        /// The identity of this registration.
        executor_registration_id: String,
    },
}

impl Registration {
    /// The relay that the answer is for.
    pub open spec fn protocol(self) -> RemoteRelayProtocol {
        match self {
            Registration::Legacy { .. } => RemoteRelayProtocol::Legacy,
            Registration::Noise { .. } => RemoteRelayProtocol::Noise,
        }
    }

    /// The address of the rendezvous.
    pub open spec fn address(self) -> Seq<char> {
        match self {
            Registration::Legacy { url, .. } => url@,
            Registration::Noise { url, .. } => url@,
        }
    }

    /// What is served after the registration.
    pub open spec fn session(self) -> SessionModel {
        match self {
            Registration::Legacy { environment_id, .. } => SessionModel {
                environment_id: environment_id@,
                executor_registration_id: None,
            },
            Registration::Noise { environment_id, executor_registration_id, .. } => SessionModel {
                environment_id: environment_id@,
                executor_registration_id: Some(executor_registration_id@),
            },
        }
    }
}

/// What is served: an environment and, on the encrypted relay, a registration,
/// both of which the handshakes of its streams are bound to.
#[derive(Debug, Clone, PartialEq, Eq)]
pub struct ServedSession {
    /// The environment.
    pub environment_id: String,
    /// The identity of the registration.
    pub executor_registration_id: Option<String>,
}

/// What is served, over its characters.
#[verifier::ext_equal]
pub struct SessionModel {
    /// The environment.
    pub environment_id: Seq<char>,
    /// The identity of the registration.
    pub executor_registration_id: Option<Seq<char>>,
}

impl View for ServedSession {
    type V = SessionModel;

    open spec fn view(&self) -> SessionModel {
        SessionModel {
            environment_id: self.environment_id@,
            executor_registration_id: self.executor_registration_id.deep_view(),
        }
    }
}

/// Why an answer to a registration for an environment cannot be used. On the
/// cleartext relay every answer is used.
pub open spec fn registration_refusal(environment_id: Seq<char>, answer: Registration) -> Option<
    Seq<char>,
> {
    match answer {
        Registration::Legacy { .. } => None,
        Registration::Noise {
            environment_id: answered,
            security_profile,
            executor_registration_id,
            ..
        } => if answered@ != environment_id {
            Some("environment registry returned a different environment id"@)
        } else if security_profile@ != NOISE_RELAY_SECURITY_PROFILE@ {
            Some(
                "environment registry returned unsupported security profile `"@
                    + security_profile@ + "`"@,
            )
        } else if !is_registration_id(executor_registration_id@) {
            Some("environment registry returned an invalid executor registration id"@)
        } else {
            None
        },
    }
}

/// Checks an answer to a registration for an environment.
pub fn check_registration(environment_id: &str, answer: &Registration) -> (r: Result<
    (),
    ExecServerError,
>)
    ensures
        match registration_refusal(environment_id@, *answer) {
            Some(message) => r matches Err(e) && e.is_protocol(message),
            None => r is Ok,
        },
{
    match answer {
        Registration::Legacy { .. } => Ok(()),
        Registration::Noise {
            environment_id: answered,
            security_profile,
            executor_registration_id,
            ..
        } => {
            if !same_text(answered.as_str(), environment_id) {
                return Err(
                    protocol_error("environment registry returned a different environment id"),
                );
            }
            if !same_text(security_profile.as_str(), NOISE_RELAY_SECURITY_PROFILE) {
                let mut message = chars_of(
                    "environment registry returned unsupported security profile `",
                );
                push_text(&mut message, security_profile.as_str());
                push_text(&mut message, "`");
                return Err(ExecServerError::Protocol(string_of(&message)));
            }
            validate_executor_registration_id(executor_registration_id.as_str())
        },
    }
}

/// Where the loop is.
#[derive(Debug, Clone, Copy, PartialEq, Eq, Structural)]
pub enum LoopStage {
    /// The exec-server is to be registered.
    Registering,
    /// The rendezvous is to be connected to.
    Connecting,
    /// The connection is served.
    Serving,
    /// A pause is due.
    Pausing,
    /// The loop has ended with an error.
    Failed,
}

/// The loop as mathematical values.
#[verifier::ext_equal]
pub struct LoopModel {
    /// The relay.
    pub protocol: RemoteRelayProtocol,
    /// The environment.
    pub environment: Seq<char>,
    /// The next pause in seconds.
    pub pause: nat,
    /// The stage.
    pub stage: LoopStage,
    /// What is served, or will be once the rendezvous is reached.
    pub session: Option<SessionModel>,
}

impl LoopModel {
    /// The state before the first registration.
    pub open spec fn initial(protocol: RemoteRelayProtocol, environment: Seq<char>) -> LoopModel {
        LoopModel { protocol, environment, pause: 1, stage: LoopStage::Registering, session: None }
    }

    /// On the encrypted relay, what is served is the environment that was asked
    /// for, under a registration that was checked.
    pub open spec fn wf(self) -> bool {
        &&& 1 <= self.pause <= super::registry::MAX_BACKOFF_SECS
        &&& self.stage == LoopStage::Connecting || self.stage == LoopStage::Serving
            ==> self.session is Some
        &&& self.protocol == RemoteRelayProtocol::Noise ==> environment_id_refusal(
            self.environment,
        ) is None
        &&& self.protocol == RemoteRelayProtocol::Noise && self.session is Some ==> {
            &&& self.session->0.environment_id == self.environment
            &&& self.session->0.executor_registration_id matches Some(id) && is_registration_id(id)
        }
    }

    /// The state after the registry answered, or failed to.
    pub open spec fn after_registration(self, answer: Result<Registration, ExecServerError>) -> Self {
        match answer {
            Ok(registration) if registration_refusal(self.environment, registration)
                is None => LoopModel {
                stage: LoopStage::Connecting,
                session: Some(registration.session()),
                ..self
            },
            _ => LoopModel { stage: LoopStage::Failed, ..self },
        }
    }

    /// The state after the rendezvous was reached, or was not.
    pub open spec fn after_connecting(self, connected: bool) -> Self {
        if connected {
            LoopModel { stage: LoopStage::Serving, pause: 1, ..self }
        } else {
            LoopModel { stage: LoopStage::Pausing, ..self }
        }
    }

    /// The state after the connection ended.
    pub open spec fn after_serving(self) -> Self {
        LoopModel { stage: LoopStage::Pausing, ..self }
    }

    /// The state after the pause.
    pub open spec fn after_pause(self) -> Self {
        LoopModel { stage: LoopStage::Registering, pause: next_pause(self.pause), ..self }
    }
}

/// The loop.
pub struct EnvironmentLoop {
    protocol: RemoteRelayProtocol,
    environment_id: String,
    backoff: ReconnectBackoff,
    stage: LoopStage,
    session: Option<ServedSession>,
}

impl View for EnvironmentLoop {
    type V = LoopModel;

    closed spec fn view(&self) -> LoopModel {
        LoopModel {
            protocol: self.protocol,
            environment: self.environment_id@,
            pause: self.backoff@,
            stage: self.stage,
            session: match self.session {
                Some(session) => Some(session@),
                None => None,
            },
        }
    }
}

impl EnvironmentLoop {
    /// Starts the loop for the cleartext relay.
    pub fn start_legacy(environment_id: &str) -> (r: Self)
        ensures
            r@ == LoopModel::initial(RemoteRelayProtocol::Legacy, environment_id@),
            r@.wf(),
    {
        EnvironmentLoop {
            protocol: RemoteRelayProtocol::Legacy,
            environment_id: environment_id.to_owned(),
            backoff: ReconnectBackoff::new(),
            stage: LoopStage::Registering,
            session: None,
        }
    }

    /// Starts the loop for the encrypted relay, under a fresh identity that it
    /// keeps over all connections.
    pub fn start_noise(environment_id: &str) -> (r: Result<
        (Self, NoiseChannelIdentity),
        ExecServerError,
    >)
        ensures
            match environment_id_refusal(environment_id@) {
                Some(message) => r matches Err(e) && e.is_config(message),
                None => r matches Ok((l, _)) && l@.wf() && l@ == LoopModel::initial(
                    RemoteRelayProtocol::Noise,
                    environment_id@,
                ),
            },
    {
        if let Err(e) = validate_environment_id(environment_id) {
            return Err(e);
        }
        match NoiseChannelIdentity::generate() {
            Ok(identity) => Ok(
                (
                    EnvironmentLoop {
                        protocol: RemoteRelayProtocol::Noise,
                        environment_id: environment_id.to_owned(),
                        backoff: ReconnectBackoff::new(),
                        stage: LoopStage::Registering,
                        session: None,
                    },
                    identity,
                ),
            ),
            Err(e) => Err(identity_error(&e)),
        }
    }

    /// The stage.
    pub fn stage(&self) -> (r: LoopStage)
        ensures
            r == self@.stage,
    {
        self.stage
    }

    /// Takes up the registry's answer. Where it can be used, the rendezvous at the
    /// returned address is to be connected to; otherwise the loop ends.
    pub fn registered(&mut self, answer: Result<Registration, ExecServerError>) -> (r: Result<
        String,
        ExecServerError,
    >)
        requires
            old(self)@.wf(),
            old(self)@.stage == LoopStage::Registering,
            answer matches Ok(registration) ==> registration.protocol() == old(self)@.protocol,
        ensures
            final(self)@.wf(),
            final(self)@ == old(self)@.after_registration(answer),
            match answer {
                Err(error) => r == Err::<String, ExecServerError>(error),
                Ok(registration) => match registration_refusal(
                    old(self)@.environment,
                    registration,
                ) {
                    Some(message) => r matches Err(e) && e.is_protocol(message),
                    None => r matches Ok(url) && url@ == registration.address(),
                },
            },
    {
        let registration = match answer {
            Ok(registration) => registration,
            Err(error) => {
                self.stage = LoopStage::Failed;
                return Err(error);
            },
        };
        if let Err(error) = check_registration(self.environment_id.as_str(), &registration) {
            self.stage = LoopStage::Failed;
            return Err(error);
        }
        self.stage = LoopStage::Connecting;
        match registration {
            Registration::Legacy { environment_id, url } => {
                self.session = Some(
                    ServedSession { environment_id, executor_registration_id: None },
                );
                Ok(url)
            },
            Registration::Noise { environment_id, url, executor_registration_id, .. } => {
                self.session = Some(
                    ServedSession {
                        environment_id,
                        executor_registration_id: Some(executor_registration_id),
                    },
                );
                Ok(url)
            },
        }
    }

    /// Takes up whether the rendezvous was reached; if so, tells what to serve.
    pub fn connect_finished(&mut self, connected: bool) -> (r: Option<&ServedSession>)
        requires
            old(self)@.wf(),
            old(self)@.stage == LoopStage::Connecting,
        ensures
            final(self)@.wf(),
            final(self)@ == old(self)@.after_connecting(connected),
            if connected {
                r matches Some(session) && old(self)@.session == Some(session@)
            } else {
                r is None
            },
    {
        if !connected {
            self.stage = LoopStage::Pausing;
            return None;
        }
        self.stage = LoopStage::Serving;
        self.backoff.connected();
        self.session.as_ref()
    }

    /// Notes that the connection ended.
    pub fn serving_ended(&mut self)
        requires
            old(self)@.wf(),
            old(self)@.stage == LoopStage::Serving,
        ensures
            final(self)@.wf(),
            final(self)@ == old(self)@.after_serving(),
    {
        self.stage = LoopStage::Pausing;
    }

    /// The seconds to pause before the next registration.
    pub fn pause(&mut self) -> (r: u64)
        requires
            old(self)@.wf(),
            old(self)@.stage == LoopStage::Pausing,
        ensures
            r == old(self)@.pause,
            final(self)@.wf(),
            final(self)@ == old(self)@.after_pause(),
    {
        self.stage = LoopStage::Registering;
        self.backoff.pause()
    }
}

/// The relay and the environment that were chosen at the start are never left,
/// whatever fails.
pub proof fn law_chosen_relay_is_never_left(
    m: LoopModel,
    answer: Result<Registration, ExecServerError>,
    connected: bool,
)
    ensures
        m.after_registration(answer).protocol == m.protocol,
        m.after_connecting(connected).protocol == m.protocol,
        m.after_serving().protocol == m.protocol,
        m.after_pause().protocol == m.protocol,
        m.after_registration(answer).environment == m.environment,
        m.after_connecting(connected).environment == m.environment,
        m.after_serving().environment == m.environment,
        m.after_pause().environment == m.environment,
{
}

/// The loop goes on after any failure to connect and after any end of a
/// connection; only a registration that failed or cannot be used ends it.
pub proof fn law_only_registration_ends_the_loop(
    m: LoopModel,
    answer: Result<Registration, ExecServerError>,
    connected: bool,
)
    requires
        m.stage != LoopStage::Failed,
    ensures
        m.after_connecting(connected).stage != LoopStage::Failed,
        m.after_serving().stage != LoopStage::Failed,
        m.after_pause().stage == LoopStage::Registering,
        m.after_registration(answer).stage == LoopStage::Failed <==> (answer is Err
            || registration_refusal(m.environment, answer->Ok_0) is Some),
{
}

/// After a connection was made, the first pause is a second long again.
pub proof fn law_connection_resets_the_pauses(m: LoopModel)
    ensures
        m.after_connecting(true).after_serving().pause == 1,
        m.after_connecting(false).pause == m.pause,
{
}

/// On the encrypted relay an answer is used exactly where it is for the environment
/// that was asked for, has the security profile that was asked for, and names an
/// unambiguous registration; what is wrong first is what is reported. On the
/// cleartext relay every answer is used.
pub proof fn law_encrypted_relay_needs_the_answer_that_was_asked_for(
    environment: Seq<char>,
    answer: Registration,
)
    ensures
        answer is Legacy ==> registration_refusal(environment, answer) is None,
        answer matches Registration::Noise {
            environment_id,
            security_profile,
            executor_registration_id,
            ..
        } ==> {
            let refusal = registration_refusal(environment, answer);
            let same = environment_id@ == environment;
            let secure = security_profile@ == "noise_hybrid_ik_v1"@;
            &&& refusal is None <==> same && secure && is_registration_id(executor_registration_id@)
            &&& !same ==> refusal == Some(
                "environment registry returned a different environment id"@,
            )
            &&& same && !secure ==> refusal == Some(
                "environment registry returned unsupported security profile `"@ + security_profile@
                    + "`"@,
            )
            &&& same && secure && !is_registration_id(executor_registration_id@) ==> refusal
                == Some("environment registry returned an invalid executor registration id"@)
        },
{
}

/// What is served is what the registry answered: its environment and, on the
/// encrypted relay, its registration.
pub proof fn law_answered_session_is_served(m: LoopModel, answer: Registration)
    requires
        registration_refusal(m.environment, answer) is None,
    ensures
        ({
            let next = m.after_registration(Ok(answer));
            &&& next.stage == LoopStage::Connecting
            &&& next.pause == m.pause
            &&& next.session is Some
            &&& answer matches Registration::Legacy { environment_id, .. } ==> {
                &&& next.session->0.environment_id == environment_id@
                &&& next.session->0.executor_registration_id is None
            }
            &&& answer matches Registration::Noise {
                environment_id,
                executor_registration_id,
                ..
            } ==> {
                &&& next.session->0.environment_id == environment_id@
                &&& next.session->0.executor_registration_id == Some(executor_registration_id@)
            }
        }),
{
}

/// The loop goes round: a connection that comes about is served, one that does not
/// is followed by a pause, as is the end of one, and a pause by the next
/// registration. What is served stays the same until then, and only the pauses
/// grow.
pub proof fn law_loop_goes_round(m: LoopModel)
    ensures
        m.after_connecting(true).stage == LoopStage::Serving,
        m.after_connecting(true).session == m.session,
        m.after_connecting(true).pause == 1,
        m.after_connecting(false).stage == LoopStage::Pausing,
        m.after_connecting(false).pause == m.pause,
        m.after_serving().stage == LoopStage::Pausing,
        m.after_serving().session == m.session,
        m.after_serving().pause == m.pause,
        m.after_pause().stage == LoopStage::Registering,
        m.pause <= 15 ==> m.after_pause().pause == 2 * m.pause,
        m.pause > 15 ==> m.after_pause().pause == 30,
{
}

/// The loop starts with a registration, and its first pause is one second long.
pub proof fn law_loop_starts_with_a_registration(
    protocol: RemoteRelayProtocol,
    environment: Seq<char>,
)
    ensures
        ({
            let m = LoopModel::initial(protocol, environment);
            &&& m.protocol == protocol
            &&& m.environment == environment
            &&& m.stage == LoopStage::Registering
            &&& m.pause == 1
            &&& m.session is None
        }),
{
}

/// The rendezvous that is connected to, and the relay, are those of the answer.
pub proof fn law_answer_names_relay_and_address(answer: Registration)
    ensures
        answer.protocol() == RemoteRelayProtocol::Noise <==> answer is Noise,
        answer matches Registration::Legacy { url, .. } ==> answer.address() == url@,
        answer matches Registration::Noise { url, .. } ==> answer.address() == url@,
{
}

} // verus!
