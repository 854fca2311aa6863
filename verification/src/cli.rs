//! The settings of the server and what they ask for.

use vstd::prelude::*;

verus! {

/// The settings that the server is started with.
#[derive(Debug, Clone, PartialEq, Eq)]
pub struct App {
    /// Difficulty of the delay function.
    pub t: u64,
    /// Where the deposits are kept.
    pub persistent_store: String,
    /// The server's certificate.
    pub cert: Option<String>,
    /// The server's private key.
    pub key: Option<String>,
    /// The authority that signs the certificates of testators.
    pub testator_ca: Option<String>,
    pub beneficiary_api_port: u16,
    pub testator_api_port: u16,
    /// Where the parameters of the delay function are cached.
    pub vdf_params: Option<String>,
    /// Run both endpoints without TLS.
    pub insecure: bool,
    /// Host names to make a self-signed certificate for.
    pub generate_self_signed: Vec<String>,
}

/// The port of the beneficiary's endpoint unless another is given.
pub const DEFAULT_BENEFICIARY_API_PORT: u16 = 4949;

/// The port of the testator's endpoint unless another is given.
pub const DEFAULT_TESTATOR_API_PORT: u16 = 4950;

/// How an endpoint protects its connections.
#[derive(Debug, Clone, Copy, PartialEq, Eq)]
pub enum Transport {
    /// No TLS.
    Plain,
    /// The server shows its certificate.
    Tls,
    /// The server shows its certificate and asks the client for one that the
    /// testators' authority has signed.
    MutualTls,
}

/// Settings that do not go together.
#[derive(Debug, Clone, Copy, PartialEq, Eq)]
pub enum UsageError {
    /// A certificate was given together with the insecure mode.
    CertWithInsecure,
    /// A certificate was given together with host names to sign for.
    CertWithSelfSigned,
    /// A key was given together with the insecure mode.
    KeyWithInsecure,
    /// A key was given together with host names to sign for.
    KeyWithSelfSigned,
    /// The testators' authority is missing, and the mode is not insecure.
    MissingTestatorCa,
    /// The insecure mode was given together with host names to sign for.
    InsecureWithSelfSigned,
}

/// What to do about the parameters of the delay function at startup.
#[derive(Debug, Clone, Copy, PartialEq, Eq)]
pub enum SetupPlan {
    /// Read them from the cache.
    Load,
    /// Compute them and write them to the cache.
    ComputeAndSave,
    /// Compute them and keep them in memory only.
    Compute,
}

/// Where the parameters of the delay function come from: from the cache if
/// one is named and exists; else they are computed, and cached if a cache
/// is named.
pub fn setup_plan(cache_named: bool, cache_exists: bool) -> (plan: SetupPlan)
    ensures
        plan == if cache_named && cache_exists {
            SetupPlan::Load
        } else if cache_named {
            SetupPlan::ComputeAndSave
        } else {
            SetupPlan::Compute
        },
{
    if cache_named && cache_exists {
        SetupPlan::Load
    } else if cache_named {
        SetupPlan::ComputeAndSave
    } else {
        SetupPlan::Compute
    }
}

impl App {
    /// Whether host names to sign for were given.
    pub open spec fn self_signed(&self) -> bool {
        self.generate_self_signed@.len() > 0
    }

    /// The first rule that the settings break, if they break one.
    pub open spec fn flaw(&self) -> Option<UsageError> {
        if self.cert is Some && self.insecure {
            Some(UsageError::CertWithInsecure)
        } else if self.cert is Some && self.self_signed() {
            Some(UsageError::CertWithSelfSigned)
        } else if self.key is Some && self.insecure {
            Some(UsageError::KeyWithInsecure)
        } else if self.key is Some && self.self_signed() {
            Some(UsageError::KeyWithSelfSigned)
        } else if self.testator_ca is None && !self.insecure {
            Some(UsageError::MissingTestatorCa)
        } else if self.insecure && self.self_signed() {
            Some(UsageError::InsecureWithSelfSigned)
        } else {
            None
        }
    }

    /// Whether the server has what it needs to show a certificate: both the
    /// certificate and its key.
    pub open spec fn has_identity(&self) -> bool {
        self.cert is Some && self.key is Some
    }

    /// Checks that the settings go together.
    pub fn check(&self) -> (checked: Result<(), UsageError>)
        ensures
            match checked {
                Ok(_) => self.flaw() is None,
                Err(e) => self.flaw() == Some(e),
            },
    {
        let self_signed = self.generate_self_signed.len() > 0;
        if self.cert.is_some() && self.insecure {
            Err(UsageError::CertWithInsecure)
        } else if self.cert.is_some() && self_signed {
            Err(UsageError::CertWithSelfSigned)
        } else if self.key.is_some() && self.insecure {
            Err(UsageError::KeyWithInsecure)
        } else if self.key.is_some() && self_signed {
            Err(UsageError::KeyWithSelfSigned)
        } else if self.testator_ca.is_none() && !self.insecure {
            Err(UsageError::MissingTestatorCa)
        } else if self.insecure && self_signed {
            Err(UsageError::InsecureWithSelfSigned)
        } else {
            Ok(())
        }
    }

    /// How the beneficiary's endpoint protects its connections: with the
    /// server's certificate where the server has one.
    pub fn beneficiary_transport(&self) -> (transport: Transport)
        ensures
            transport == if self.has_identity() {
                Transport::Tls
            } else {
                Transport::Plain
            },
    {
        if self.cert.is_some() && self.key.is_some() {
            Transport::Tls
        } else {
            Transport::Plain
        }
    }

    /// How the testator's endpoint protects its connections: with
    /// certificates on both sides where the server has one and knows the
    /// testators' authority.
    pub fn testator_transport(&self) -> (transport: Transport)
        ensures
            transport == if self.has_identity() && self.testator_ca is Some {
                Transport::MutualTls
            } else {
                Transport::Plain
            },
    {
        if self.cert.is_some() && self.key.is_some() && self.testator_ca.is_some() {
            Transport::MutualTls
        } else {
            Transport::Plain
        }
    }
}

/// In insecure mode neither endpoint uses TLS.
pub proof fn lemma_insecure_means_plain(app: App)
    requires
        app.flaw() is None,
        app.insecure,
    ensures
        !app.has_identity(),
{
}

/// With a certificate and its key, and settings that go together, the
/// testator's endpoint asks its clients for certificates.
pub proof fn lemma_identity_means_mutual_tls(app: App)
    requires
        app.flaw() is None,
        app.has_identity(),
    ensures
        !app.insecure,
        app.testator_ca is Some,
{
}

} // verus!
