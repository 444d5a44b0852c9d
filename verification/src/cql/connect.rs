//! How to connect to a cluster.
use vstd::prelude::*;

use crate::config::{RetryInterval, ValidationStrategy};
use crate::stats::session::SessionStatsView;
use crate::value::ValueView;
use super::cass_error::{CassError, CassErrorKind, CassErrorView};
use super::context::Context;
use super::statement::PreparedStatementView;

verus! {

/// The files and the switches of an encrypted connection.
#[derive(Debug, PartialEq)]
pub struct TlsConf {
    pub ssl: bool,
    pub ssl_ca_cert_file: Option<String>,
    pub ssl_cert_file: Option<String>,
    pub ssl_key_file: Option<String>,
    pub ssl_peer_verification: bool,
}

/// A step in setting up an encrypted connection.
#[derive(Debug, PartialEq)]
pub enum TlsStep {
    CaFile(String),
    CertificateFile(String),
    PrivateKeyFile(String),
    VerifyPeer,
}

/// What a [`TlsStep`] stands for.
pub enum TlsStepView {
    CaFile(Seq<char>),
    CertificateFile(Seq<char>),
    PrivateKeyFile(Seq<char>),
    VerifyPeer,
}

impl View for TlsStep {
    type V = TlsStepView;

    open spec fn view(&self) -> TlsStepView {
        match self {
            TlsStep::CaFile(path) => TlsStepView::CaFile(path@),
            TlsStep::CertificateFile(path) => TlsStepView::CertificateFile(path@),
            TlsStep::PrivateKeyFile(path) => TlsStepView::PrivateKeyFile(path@),
            TlsStep::VerifyPeer => TlsStepView::VerifyPeer,
        }
    }
}

/// The views of steps.
pub open spec fn tls_step_models(steps: Seq<TlsStep>) -> Seq<TlsStepView> {
    Seq::new(steps.len(), |i: int| steps[i]@)
}

/// One step, or none.
pub open spec fn step_if(step: Option<TlsStepView>) -> Seq<TlsStepView> {
    match step {
        Some(step) => seq![step],
        None => Seq::empty(),
    }
}

/// The steps in setting up an encrypted connection, if it is to be one.
pub open spec fn tls_steps(conf: TlsConf) -> Option<Seq<TlsStepView>> {
    if conf.ssl {
        Some(
            step_if(
                match conf.ssl_ca_cert_file {
                    Some(path) => Some(TlsStepView::CaFile(path@)),
                    None => None,
                },
            ) + step_if(
                match conf.ssl_cert_file {
                    Some(path) => Some(TlsStepView::CertificateFile(path@)),
                    None => None,
                },
            ) + step_if(
                match conf.ssl_key_file {
                    Some(path) => Some(TlsStepView::PrivateKeyFile(path@)),
                    None => None,
                },
            ) + step_if(
                if conf.ssl_peer_verification {
                    Some(TlsStepView::VerifyPeer)
                } else {
                    None
                },
            ),
        )
    } else {
        None
    }
}

/// Lists the steps in setting up an encrypted connection, if it is to be one.
pub fn tls_context(conf: &TlsConf) -> (r: Option<Vec<TlsStep>>)
    ensures
        match r {
            Some(steps) => tls_steps(*conf) == Some(tls_step_models(steps@)),
            None => tls_steps(*conf) is None,
        },
{
    if !conf.ssl {
        return None;
    }
    let mut steps: Vec<TlsStep> = Vec::new();
    match &conf.ssl_ca_cert_file {
        Some(path) => steps.push(TlsStep::CaFile(path.clone())),
        None => {},
    }
    match &conf.ssl_cert_file {
        Some(path) => steps.push(TlsStep::CertificateFile(path.clone())),
        None => {},
    }
    match &conf.ssl_key_file {
        Some(path) => steps.push(TlsStep::PrivateKeyFile(path.clone())),
        None => {},
    }
    if conf.ssl_peer_verification {
        steps.push(TlsStep::VerifyPeer);
    }
    assert(tls_step_models(steps@) =~= tls_steps(*conf)->Some_0);
    Some(steps)
}

/// Which nodes are preferred.
#[derive(Debug, PartialEq)]
pub enum Preference {
    Nowhere,
    /// The nodes of a datacenter, and those of others where none of them answers.
    Datacenter(String),
    /// The nodes of a rack of a datacenter, and others where none of them answers.
    DatacenterAndRack(String, String),
}

/// Decides which nodes are preferred. A rack is given only together with its datacenter.
pub fn preference(datacenter: &Option<String>, rack: &Option<String>) -> (r: Preference)
    requires
        rack is Some ==> datacenter is Some,
    ensures
        match (*datacenter, *rack) {
            (Some(dc), Some(rack)) => r matches Preference::DatacenterAndRack(d, k) && d@ == dc@
                && k@ == rack@,
            (Some(dc), None) => r matches Preference::Datacenter(d) && d@ == dc@,
            _ => r == Preference::Nowhere,
        },
{
    match (datacenter, rack) {
        (Some(dc), Some(rack)) => Preference::DatacenterAndRack(dc.clone(), rack.clone()),
        (Some(dc), None) => Preference::Datacenter(dc.clone()),
        _ => Preference::Nowhere,
    }
}

/// A text, and the empty one where there is none.
pub open spec fn text_or_empty(text: Option<String>) -> Seq<char> {
    match text {
        Some(text) => text@,
        None => Seq::empty(),
    }
}

/// Copies a text, and the empty one where there is none.
fn or_empty(text: &Option<String>) -> (r: String)
    ensures
        r@ == text_or_empty(*text),
{
    match text {
        Some(text) => text.clone(),
        None => String::new(),
    }
}

/// Makes the context of a session, or reports why none could be opened.
pub fn connected(
    session: Result<(), String>,
    addresses: Vec<String>,
    datacenter: &Option<String>,
    rack: &Option<String>,
    page_size: u32,
    retry_number: u64,
    retry_interval: RetryInterval,
    validation_strategy: ValidationStrategy,
) -> (r: Result<Context, CassError>)
    requires
        rack is Some ==> datacenter is Some,
    ensures
        match r {
            Ok(context) => {
                &&& session is Ok
                &&& context.has_session
                &&& context.page_size == page_size
                &&& context.preferred_datacenter@ == text_or_empty(*datacenter)
                &&& context.preferred_rack@ == text_or_empty(*rack)
                &&& context.retry_number == retry_number
                &&& context.retry_interval == retry_interval
                &&& context.validation_strategy == validation_strategy
                &&& context.stats@ == SessionStatsView::fresh()
                &&& context.statements@ == Map::<Seq<char>, PreparedStatementView>::empty()
                &&& context.load_cycle_count == 0
                &&& context.data@ == ValueView::Object(Seq::empty())
            },
            Err(e) => session matches Err(reason) && e@ == CassErrorView::FailedToConnect(
                crate::text::texts(addresses@),
                reason@,
            ),
        },
{
    match session {
        Ok(_) => Ok(
            Context::new(
                true,
                page_size as u64,
                or_empty(datacenter),
                or_empty(rack),
                retry_number,
                retry_interval,
                validation_strategy,
            ),
        ),
        Err(reason) => Err(CassError(CassErrorKind::FailedToConnect(addresses, reason))),
    }
}

/// An encrypted connection is set up with every file that is given, each for its own purpose, the
/// authority first, and the peer is verified last and only where that is asked for. Without
/// encryption nothing is set up.
pub proof fn tls_uses_every_file_for_its_purpose(
    conf: TlsConf,
    ca: String,
    cert: String,
    key: String,
)
    ensures
        !conf.ssl ==> tls_steps(conf) is None,
        conf.ssl ==> tls_steps(conf) is Some,
        conf.ssl && conf.ssl_ca_cert_file == Some(ca) && conf.ssl_cert_file == Some(cert)
            && conf.ssl_key_file == Some(key) && conf.ssl_peer_verification ==> tls_steps(conf)
            == Some(
            seq![
                TlsStepView::CaFile(ca@),
                TlsStepView::CertificateFile(cert@),
                TlsStepView::PrivateKeyFile(key@),
                TlsStepView::VerifyPeer,
            ],
        ),
        conf.ssl ==> ({
            let steps = tls_steps(conf)->Some_0;
            &&& steps.contains(TlsStepView::CaFile(ca@)) == (conf.ssl_ca_cert_file
                matches Some(path) && path@ == ca@)
            &&& steps.contains(TlsStepView::CertificateFile(cert@)) == (conf.ssl_cert_file
                matches Some(path) && path@ == cert@)
            &&& steps.contains(TlsStepView::PrivateKeyFile(key@)) == (conf.ssl_key_file
                matches Some(path) && path@ == key@)
            &&& steps.contains(TlsStepView::VerifyPeer) == conf.ssl_peer_verification
        }),
{
    if conf.ssl {
        let steps = tls_steps(conf)->Some_0;
        let a = step_if(
            match conf.ssl_ca_cert_file {
                Some(path) => Some(TlsStepView::CaFile(path@)),
                None => None,
            },
        );
        let b = step_if(
            match conf.ssl_cert_file {
                Some(path) => Some(TlsStepView::CertificateFile(path@)),
                None => None,
            },
        );
        let c = step_if(
            match conf.ssl_key_file {
                Some(path) => Some(TlsStepView::PrivateKeyFile(path@)),
                None => None,
            },
        );
        let d = step_if(
            if conf.ssl_peer_verification {
                Some(TlsStepView::VerifyPeer)
            } else {
                None
            },
        );
        assert(steps == a + b + c + d);
        if a.len() > 0 {
            assert(steps[0] == a[0]);
        }
        if b.len() > 0 {
            assert(steps[a.len() as int] == b[0]);
        }
        if c.len() > 0 {
            assert(steps[(a.len() + b.len()) as int] == c[0]);
        }
        if d.len() > 0 {
            assert(steps[(a.len() + b.len() + c.len()) as int] == d[0]);
        }
        if conf.ssl_ca_cert_file == Some(ca) && conf.ssl_cert_file == Some(cert)
            && conf.ssl_key_file == Some(key) && conf.ssl_peer_verification {
            assert(steps =~= seq![
                TlsStepView::CaFile(ca@),
                TlsStepView::CertificateFile(cert@),
                TlsStepView::PrivateKeyFile(key@),
                TlsStepView::VerifyPeer,
            ]);
        }
    }
}

} // verus!
