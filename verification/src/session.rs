//! The protocol state machine: one context record, a strictly linear
//! lifecycle `Created -> Opened -> Closed`, and one envelope handed out
//! per reporting call.
//!
//! The session computes each envelope's wire line; the host appends every
//! returned line to its sink, in the order the calls were made, so the
//! ghost history below is exactly what stands in the sink.
use crate::context::{load_context, spec_load_context, ContextLoadError, ContextSpec,
    PipesContextData};
use crate::envelope::{closed_envelope, closed_message, log_envelope, log_message,
    materialization_envelope, materialization_message, opened_envelope, opened_message,
    render_envelope, envelope_text, EnvelopeSpec, Method};
use crate::json::JsonValue;
use vstd::prelude::*;

verus! {

/// A call that does not fit the protocol's contract.
#[derive(Clone, Copy, PartialEq, Eq, Structural, Debug)]
pub enum ProtocolMisuseError {
    /// The operation was invoked out of the linear order
    /// `opened, (log | report)*, closed`.
    OutOfOrder,
    /// A materialization was reported, but the context names no asset key.
    NoAssetKeys,
}

/// The lifecycle of one session, strictly linear and one-shot.
#[derive(Clone, Copy, PartialEq, Eq, Structural, Debug)]
pub enum SessionState {
    Created,
    Opened,
    Closed,
}

/// A reporting session: owns one context record and emits the protocol's
/// envelopes, in order.
pub struct PipesContext {
    data: PipesContextData,
    state: SessionState,
    history: Ghost<Seq<EnvelopeSpec>>,
}

/// An envelope allowed between `opened` and `closed`.
pub open spec fn is_report(e: EnvelopeSpec) -> bool {
    e.method == Method::Log || e.method == Method::ReportAssetMaterialization
}

/// Whether a context names at least one asset key.
pub open spec fn has_asset_key(c: ContextSpec) -> bool {
    &&& c.asset_keys is Some
    &&& c.asset_keys->0.len() > 0
}

/// The asset key a materialization reports: always the first one.
pub open spec fn first_asset_key(c: ContextSpec) -> Seq<char> {
    c.asset_keys->0[0]
}

impl PipesContext {
    /// The loaded context record.
    pub closed spec fn data_spec(self) -> ContextSpec {
        self.data@
    }

    /// The lifecycle state.
    pub closed spec fn state_spec(self) -> SessionState {
        self.state
    }

    /// Every envelope handed out for writing so far, in order.
    pub closed spec fn history(self) -> Seq<EnvelopeSpec> {
        self.history@
    }

    /// What each state admits as an emitted stream: nothing before the
    /// announcement, `opened` first, reports in between, `closed` last.
    pub open spec fn inv(self) -> bool {
        match self.state_spec() {
            SessionState::Created => self.history().len() == 0,
            SessionState::Opened => {
                &&& self.history().len() >= 1
                &&& self.history()[0] == opened_envelope()
                &&& forall|i: int|
                    1 <= i < self.history().len() ==> is_report(#[trigger] self.history()[i])
            },
            SessionState::Closed => {
                &&& self.history().len() >= 2
                &&& self.history()[0] == opened_envelope()
                &&& self.history().last() == closed_envelope()
                &&& forall|i: int|
                    1 <= i < self.history().len() - 1 ==> is_report(#[trigger] self.history()[i])
            },
        }
    }

    /// Binds a freshly loaded context into a session that has announced
    /// nothing yet.
    fn new(data: PipesContextData) -> (s: PipesContext)
        ensures
            s.inv(),
            s.state_spec() == SessionState::Created,
            s.history() == Seq::<EnvelopeSpec>::empty(),
            s.data_spec() == data@,
    {
        PipesContext { data, state: SessionState::Created, history: Ghost(Seq::empty()) }
    }

    /// Announces the session: emits the `opened` envelope's line and
    /// moves to `Opened`. Valid exactly once, before anything else.
    pub fn report_open(&mut self) -> (r: Result<String, ProtocolMisuseError>)
        requires
            old(self).inv(),
        ensures
            final(self).inv(),
            final(self).data_spec() == old(self).data_spec(),
            old(self).state_spec() == SessionState::Created ==> {
                &&& r is Ok
                &&& r->Ok_0@ == envelope_text(opened_envelope())
                &&& final(self).state_spec() == SessionState::Opened
                &&& final(self).history() == old(self).history().push(opened_envelope())
            },
            old(self).state_spec() != SessionState::Created ==> {
                &&& r == Err::<String, ProtocolMisuseError>(ProtocolMisuseError::OutOfOrder)
                &&& final(self).state_spec() == old(self).state_spec()
                &&& final(self).history() == old(self).history()
            },
    {
        match self.state {
            SessionState::Created => {},
            _ => {
                return Err(ProtocolMisuseError::OutOfOrder);
            },
        }
        let msg = opened_message();
        let line = render_envelope(&msg);
        self.state = SessionState::Opened;
        proof {
            self.history@ = self.history@.push(opened_envelope());
        }
        Ok(line)
    }

    /// Emits a `log` envelope carrying the two strings verbatim. Valid
    /// only while the session is `Opened`.
    pub fn log(&mut self, message: &str, level: &str) -> (r: Result<String, ProtocolMisuseError>)
        requires
            old(self).inv(),
        ensures
            final(self).inv(),
            final(self).data_spec() == old(self).data_spec(),
            old(self).state_spec() == SessionState::Opened ==> {
                &&& r is Ok
                &&& r->Ok_0@ == envelope_text(log_envelope(message@, level@))
                &&& final(self).state_spec() == SessionState::Opened
                &&& final(self).history() == old(self).history().push(log_envelope(message@, level@))
            },
            old(self).state_spec() != SessionState::Opened ==> {
                &&& r == Err::<String, ProtocolMisuseError>(ProtocolMisuseError::OutOfOrder)
                &&& final(self).state_spec() == old(self).state_spec()
                &&& final(self).history() == old(self).history()
            },
    {
        match self.state {
            SessionState::Opened => {},
            _ => {
                return Err(ProtocolMisuseError::OutOfOrder);
            },
        }
        let msg = log_message(message, level);
        let line = render_envelope(&msg);
        proof {
            self.history@ = self.history@.push(log_envelope(message@, level@));
        }
        Ok(line)
    }

    /// Emits a materialization report for the context's first asset key,
    /// carrying the caller's metadata and a null `data_version`. Valid
    /// only while `Opened`, and only if the context names an asset key.
    pub fn report_asset_materialization(&mut self, metadata: JsonValue) -> (r: Result<
        String,
        ProtocolMisuseError,
    >)
        requires
            old(self).inv(),
        ensures
            final(self).inv(),
            final(self).data_spec() == old(self).data_spec(),
            old(self).state_spec() == SessionState::Opened && has_asset_key(
                old(self).data_spec(),
            ) ==> {
                &&& r is Ok
                &&& r->Ok_0@ == envelope_text(
                    materialization_envelope(first_asset_key(old(self).data_spec()), metadata@),
                )
                &&& final(self).state_spec() == SessionState::Opened
                &&& final(self).history() == old(self).history().push(
                    materialization_envelope(first_asset_key(old(self).data_spec()), metadata@),
                )
            },
            old(self).state_spec() == SessionState::Opened && !has_asset_key(
                old(self).data_spec(),
            ) ==> {
                &&& r == Err::<String, ProtocolMisuseError>(ProtocolMisuseError::NoAssetKeys)
                &&& final(self).state_spec() == old(self).state_spec()
                &&& final(self).history() == old(self).history()
            },
            old(self).state_spec() != SessionState::Opened ==> {
                &&& r == Err::<String, ProtocolMisuseError>(ProtocolMisuseError::OutOfOrder)
                &&& final(self).state_spec() == old(self).state_spec()
                &&& final(self).history() == old(self).history()
            },
    {
        match self.state {
            SessionState::Opened => {},
            _ => {
                return Err(ProtocolMisuseError::OutOfOrder);
            },
        }
        let key: String = match &self.data.asset_keys {
            Option::None => {
                return Err(ProtocolMisuseError::NoAssetKeys);
            },
            Option::Some(keys) => {
                if keys.len() == 0 {
                    return Err(ProtocolMisuseError::NoAssetKeys);
                }
                keys[0].clone()
            },
        };
        proof {
            assert(key@ == first_asset_key(self.data@));
        }
        let msg = materialization_message(key, metadata);
        let line = render_envelope(&msg);
        proof {
            self.history@ = self.history@.push(
                materialization_envelope(first_asset_key(self.data@), metadata@),
            );
        }
        Ok(line)
    }

    /// Emits the terminal `closed` envelope and moves to `Closed`: the
    /// session accepts nothing afterwards. Valid only while `Opened`.
    pub fn report_close(&mut self) -> (r: Result<String, ProtocolMisuseError>)
        requires
            old(self).inv(),
        ensures
            final(self).inv(),
            final(self).data_spec() == old(self).data_spec(),
            old(self).state_spec() == SessionState::Opened ==> {
                &&& r is Ok
                &&& r->Ok_0@ == envelope_text(closed_envelope())
                &&& final(self).state_spec() == SessionState::Closed
                &&& final(self).history() == old(self).history().push(closed_envelope())
            },
            old(self).state_spec() != SessionState::Opened ==> {
                &&& r == Err::<String, ProtocolMisuseError>(ProtocolMisuseError::OutOfOrder)
                &&& final(self).state_spec() == old(self).state_spec()
                &&& final(self).history() == old(self).history()
            },
    {
        match self.state {
            SessionState::Opened => {},
            _ => {
                return Err(ProtocolMisuseError::OutOfOrder);
            },
        }
        let msg = closed_message();
        let line = render_envelope(&msg);
        self.state = SessionState::Closed;
        proof {
            self.history@ = self.history@.push(closed_envelope());
        }
        Ok(line)
    }
}

/// Loads the bootstrap description and opens the session: decodes the
/// record and immediately emits the `opened` announcement. This is the
/// only way to construct a session. On any load failure nothing is
/// emitted.
pub fn open_dagster_pipes(context_text: &str) -> (r: Result<
    (PipesContext, String),
    ContextLoadError,
>)
    ensures
        match spec_load_context(context_text@) {
            Ok(c) => {
                &&& r is Ok
                &&& r->Ok_0.0.inv()
                &&& r->Ok_0.0.state_spec() == SessionState::Opened
                &&& r->Ok_0.0.data_spec() == c
                &&& r->Ok_0.0.history() == seq![opened_envelope()]
                &&& r->Ok_0.1@ == envelope_text(opened_envelope())
            },
            Err(e) => r is Err && r->Err_0 == e,
        },
{
    let data = match load_context(context_text) {
        Ok(d) => d,
        Err(e) => {
            return Err(e);
        },
    };
    let mut session = PipesContext::new(data);
    let line = match session.report_open() {
        Ok(l) => l,
        Err(_) => {
            proof {
                assert(false);
            }
            String::new()
        },
    };
    proof {
        assert(session.history() =~= seq![opened_envelope()]);
    }
    Ok((session, line))
}

/// Ordering: a well-formed session emits `opened` strictly before every
/// other envelope, and `closed`, where it appears at all, strictly after
/// all others — only as the very last envelope of the stream.
pub proof fn lemma_history_ordering(s: PipesContext)
    requires
        s.inv(),
    ensures
        s.history().len() > 0 ==> s.history()[0].method == Method::Opened,
        forall|i: int|
            1 <= i < s.history().len() ==> (#[trigger] s.history()[i]).method != Method::Opened,
        forall|i: int|
            0 <= i < s.history().len() && (#[trigger] s.history()[i]).method == Method::Closed
                ==> i == s.history().len() - 1 && s.state_spec() == SessionState::Closed,
{
}

} // verus!
