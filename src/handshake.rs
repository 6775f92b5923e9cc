//! The GPGAuth challenge-response handshake as a state machine.
//!
//! The caller performs the requests: it calls `Handshake::step` once to get the
//! first request, then once with each response (its challenge header, if any)
//! until the step is `Done` or `Fail`. Where the step is `Decrypt`, the caller
//! decrypts the armored challenge with the session's key and hands the outcome
//! to `Handshake::on_answer` instead.
//!
//! `Init` -> `ChallengeSent` -> `Decrypting` -> `TokenSent` -> `CsrfRequested`
//! -> `Authenticated`, or `Failed` from `ChallengeSent` or `Decrypting`.

use vstd::prelude::*;
use vstd::string::StringExecFns;
use crate::error::PassboltError;
use crate::fingerprint::upper_hex;
use crate::gpg::{decode_url_armor, decoded_armor, fingerprint_bytes, fingerprint_of, first_plaintext, outcome_view, plaintext_of};
use crate::json::{entries_view, json_from_str, json_object, json_text, json_to_string, object_value, string_value};
use crate::text::utf8_text;
use vstd::utf8::{decode_utf8, valid_utf8};
use crate::session::Session;
use crate::urls::{LOGIN_URL, ME_URL};

verus! {

/// The stage-1 body: `{"gpg_auth":{"keyid":<fingerprint>}}`.
pub open spec fn stage1_json(fingerprint: Seq<char>) -> Seq<char> {
    json_text(
        object_value(
            seq![("gpg_auth"@, object_value(seq![("keyid"@, string_value(fingerprint))]))],
        ),
    )
}

/// The stage-2 body:
/// `{"gpg_auth":{"keyid":<fingerprint>,"user_token_result":<token>}}`.
pub open spec fn stage2_json(fingerprint: Seq<char>, token: Seq<char>) -> Seq<char> {
    json_text(
        object_value(
            seq![
                ("gpg_auth"@, object_value(
                    seq![
                        ("keyid"@, string_value(fingerprint)),
                        ("user_token_result"@, string_value(token)),
                    ],
                )),
            ],
        ),
    )
}

/// The stage-1 request body, which names the key by its fingerprint.
pub fn stage1_body(fingerprint: &str) -> (r: String)
    ensures
        r@ == stage1_json(fingerprint@),
{
    let inner = vec![(String::from_str("keyid"), json_from_str(fingerprint))];
    assert(entries_view(inner@) =~= seq![("keyid"@, string_value(fingerprint@))]);
    let outer = vec![(String::from_str("gpg_auth"), json_object(inner))];
    assert(entries_view(outer@) =~= seq![
        ("gpg_auth"@, object_value(seq![("keyid"@, string_value(fingerprint@))])),
    ]);
    json_to_string(&json_object(outer))
}

/// The stage-2 request body, which answers the challenge with the decrypted token.
pub fn stage2_body(fingerprint: &str, token: &str) -> (r: String)
    ensures
        r@ == stage2_json(fingerprint@, token@),
{
    let inner = vec![
        (String::from_str("keyid"), json_from_str(fingerprint)),
        (String::from_str("user_token_result"), json_from_str(token)),
    ];
    assert(entries_view(inner@) =~= seq![
        ("keyid"@, string_value(fingerprint@)),
        ("user_token_result"@, string_value(token@)),
    ]);
    let ghost inner_view = entries_view(inner@);
    let outer = vec![(String::from_str("gpg_auth"), json_object(inner))];
    assert(entries_view(outer@) =~= seq![("gpg_auth"@, object_value(inner_view))]);
    json_to_string(&json_object(outer))
}

/// The token that the decrypted challenge holds, as text: a `DecryptionError`
/// where the plaintext is not UTF-8.
pub open spec fn token_text(answer: Result<Seq<u8>, PassboltError>) -> Result<Seq<char>, PassboltError> {
    match answer {
        Ok(b) => if valid_utf8(b) {
            Ok(decode_utf8(b))
        } else {
            Err(PassboltError::DecryptionError)
        },
        Err(e) => Err(e),
    }
}

/// Where leaving `ChallengeSent` with `answer` leads, for the key `fingerprint`.
pub open spec fn answered(fingerprint: Seq<char>, answer: Result<Seq<u8>, PassboltError>, state: HandshakeState, step: Step) -> bool {
    match token_text(answer) {
        Ok(token) => state == HandshakeState::TokenSent && sends_post(
            step,
            LOGIN_URL@,
            stage2_json(fingerprint, token),
        ),
        Err(e) => state == HandshakeState::Failed(e) && step == Step::Fail(e),
    }
}

/// Where the handshake stands.
#[derive(Debug, Clone, Copy, PartialEq, Eq, Structural)]
pub enum HandshakeState {
    /// Nothing sent yet.
    Init,
    /// The fingerprint was sent; the challenge is awaited.
    ChallengeSent,
    /// The challenge was decoded; the outcome of decrypting it is awaited.
    Decrypting,
    /// The decrypted token was sent.
    TokenSent,
    /// The request that makes the server issue a CSRF cookie was sent.
    CsrfRequested,
    /// The session is authenticated.
    Authenticated,
    /// The handshake failed.
    Failed(PassboltError),
}

/// A request that the caller is to send.
#[derive(Debug, Clone)]
pub enum Request {
    Post { path: String, body: String },
    Get { path: String },
}

/// What the caller is to do next.
#[derive(Debug, Clone)]
pub enum Step {
    /// Send the request and hand its response back to `step`.
    Send(Request),
    /// Decrypt this armored message with the session's key and hand the
    /// outcome to `on_answer`.
    Decrypt(String),
    /// The session is authenticated.
    Done,
    /// The handshake failed.
    Fail(PassboltError),
}

/// Whether `step` is to POST `body` to `path`.
pub open spec fn sends_post(step: Step, path: Seq<char>, body: Seq<char>) -> bool {
    match step {
        Step::Send(Request::Post { path: p, body: b }) => p@ == path && b@ == body,
        _ => false,
    }
}

/// Whether `step` is to GET `path`.
pub open spec fn sends_get(step: Step, path: Seq<char>) -> bool {
    match step {
        Step::Send(Request::Get { path: p }) => p@ == path,
        _ => false,
    }
}

/// One run of the handshake for a session.
pub struct Handshake {
    state: HandshakeState,
    fingerprint: String,
}

impl Handshake {
    /// The current state.
    pub closed spec fn state_view(&self) -> HandshakeState {
        self.state
    }

    /// The fingerprint that names the session's key.
    pub closed spec fn fingerprint_view(&self) -> Seq<char> {
        self.fingerprint@
    }

    /// Starts a handshake for the session's key.
    pub fn new(session: &Session) -> (r: Handshake)
        ensures
            r.state_view() == HandshakeState::Init,
            r.fingerprint_view() == upper_hex(fingerprint_bytes(session.key_view())),
    {
        Handshake { state: HandshakeState::Init, fingerprint: fingerprint_of(session.private_key()) }
    }

    /// The current state.
    pub fn state(&self) -> (r: HandshakeState)
        ensures
            r == self.state_view(),
    {
        self.state
    }

    /// The fingerprint that names the session's key.
    pub fn fingerprint(&self) -> (r: String)
        ensures
            r@ == self.fingerprint_view(),
    {
        self.fingerprint.clone()
    }

    /// Leaves `Decrypting` with the outcome of decrypting the challenge (see
    /// `plaintext_of`): the token goes back to the server in the stage-2
    /// request; an error, or a token that is not UTF-8 text, ends the handshake.
    pub fn on_answer(&mut self, outcome: Result<Option<Option<Vec<u8>>>, PassboltError>) -> (r: Step)
        ensures
            final(self).fingerprint_view() == old(self).fingerprint_view(),
            answered(old(self).fingerprint_view(), plaintext_of(outcome_view(outcome)), final(self).state_view(), r),
    {
        let token = match first_plaintext(outcome) {
            Ok(bytes) => match utf8_text(bytes) {
                Some(text) => text,
                None => {
                    self.state = HandshakeState::Failed(PassboltError::DecryptionError);
                    return Step::Fail(PassboltError::DecryptionError);
                },
            },
            Err(e) => {
                self.state = HandshakeState::Failed(e);
                return Step::Fail(e);
            },
        };
        let body = stage2_body(self.fingerprint.as_str(), token.as_str());
        self.state = HandshakeState::TokenSent;
        Step::Send(Request::Post { path: String::from_str(LOGIN_URL), body })
    }

    /// Advances the handshake. `challenge` is the `X-GPGAuth-User-Auth-Token`
    /// header of the response to the last request, if it had one; it is read
    /// only in `ChallengeSent`. In `Decrypting` the outcome belongs to
    /// `on_answer`: a step there ends the handshake with `DecryptionError`.
    pub fn step(&mut self, challenge: Option<String>) -> (r: Step)
        ensures
            final(self).fingerprint_view() == old(self).fingerprint_view(),
            old(self).state_view() is Init ==> final(self).state_view() == HandshakeState::ChallengeSent
                && sends_post(r, LOGIN_URL@, stage1_json(old(self).fingerprint_view())),
            old(self).state_view() is ChallengeSent && challenge is None ==> final(self).state_view()
                == HandshakeState::Failed(PassboltError::MissingToken) && r == Step::Fail(
                PassboltError::MissingToken,
            ),
            old(self).state_view() is ChallengeSent && challenge is Some ==> (match decoded_armor(
                challenge->0@,
            ) {
                None => final(self).state_view() == HandshakeState::Failed(PassboltError::DecodeError)
                    && r == Step::Fail(PassboltError::DecodeError),
                Some(text) => final(self).state_view() == HandshakeState::Decrypting && (r matches Step::Decrypt(t) && t@ == text),
            }),
            old(self).state_view() is Decrypting ==> final(self).state_view() == HandshakeState::Failed(
                PassboltError::DecryptionError,
            ) && r == Step::Fail(PassboltError::DecryptionError),
            old(self).state_view() is TokenSent ==> final(self).state_view()
                == HandshakeState::CsrfRequested && sends_get(r, ME_URL@),
            old(self).state_view() is CsrfRequested ==> final(self).state_view()
                == HandshakeState::Authenticated && r is Done,
            old(self).state_view() is Authenticated ==> final(self).state_view()
                == HandshakeState::Authenticated && r is Done,
            old(self).state_view() is Failed ==> final(self).state_view() == old(self).state_view()
                && r == Step::Fail(old(self).state_view()->Failed_0),
    {
        match self.state {
            HandshakeState::Init => {
                let body = stage1_body(self.fingerprint.as_str());
                self.state = HandshakeState::ChallengeSent;
                Step::Send(Request::Post { path: String::from_str(LOGIN_URL), body })
            },
            HandshakeState::ChallengeSent => match challenge {
                None => {
                    self.state = HandshakeState::Failed(PassboltError::MissingToken);
                    Step::Fail(PassboltError::MissingToken)
                },
                Some(header) => match decode_url_armor(header.as_str()) {
                    Ok(text) => {
                        self.state = HandshakeState::Decrypting;
                        Step::Decrypt(text)
                    },
                    Err(e) => {
                        self.state = HandshakeState::Failed(e);
                        Step::Fail(e)
                    },
                },
            },
            HandshakeState::Decrypting => {
                self.state = HandshakeState::Failed(PassboltError::DecryptionError);
                Step::Fail(PassboltError::DecryptionError)
            },
            HandshakeState::TokenSent => {
                self.state = HandshakeState::CsrfRequested;
                Step::Send(Request::Get { path: String::from_str(ME_URL) })
            },
            HandshakeState::CsrfRequested => {
                self.state = HandshakeState::Authenticated;
                Step::Done
            },
            HandshakeState::Authenticated => Step::Done,
            HandshakeState::Failed(e) => Step::Fail(e),
        }
    }
}

} // verus!
