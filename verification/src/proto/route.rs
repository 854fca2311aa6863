//! Which method of an endpoint a request path names.

use crate::bytes::same_bytes;
use vstd::prelude::*;
use vstd::utf8::encode_utf8_decode_utf8;

verus! {

/// Whether two strings are the same text.
pub fn same_text(a: &str, b: &str) -> (same: bool)
    ensures
        same == (a@ == b@),
{
    proof {
        encode_utf8_decode_utf8(a@);
        encode_utf8_decode_utf8(b@);
    }
    same_bytes(a.as_bytes(), b.as_bytes())
}

/// The methods of the testator's endpoint.
#[derive(Debug, Clone, Copy, PartialEq, Eq)]
pub enum TestatorMethod {
    Ping,
    SaveServerShare,
}

/// The methods of the beneficiary's endpoint.
#[derive(Debug, Clone, Copy, PartialEq, Eq)]
pub enum BeneficiaryMethod {
    VerifyServerShare,
    GetChallenge,
    ObtainServerSecretShare,
}

/// The service name of the testator's endpoint.
pub const TESTATOR_SERVICE: &'static str = "testator.TestatorAPI";

/// The service name of the beneficiary's endpoint.
pub const BENEFICIARY_SERVICE: &'static str = "beneficiary.BeneficiaryAPI";

impl TestatorMethod {
    /// The path under which the method is reached.
    pub open spec fn spec_path(self) -> Seq<char> {
        match self {
            TestatorMethod::Ping => "/testator.TestatorAPI/Ping"@,
            TestatorMethod::SaveServerShare => "/testator.TestatorAPI/SaveServerShare"@,
        }
    }

    /// The method that a path names, if it names one of this endpoint.
    pub open spec fn of_path(path: Seq<char>) -> Option<TestatorMethod> {
        if path == TestatorMethod::Ping.spec_path() {
            Some(TestatorMethod::Ping)
        } else if path == TestatorMethod::SaveServerShare.spec_path() {
            Some(TestatorMethod::SaveServerShare)
        } else {
            None
        }
    }

    /// The path under which the method is reached.
    pub fn path(self) -> (path: &'static str)
        ensures
            path@ == self.spec_path(),
    {
        match self {
            TestatorMethod::Ping => "/testator.TestatorAPI/Ping",
            TestatorMethod::SaveServerShare => "/testator.TestatorAPI/SaveServerShare",
        }
    }

    /// Finds the method that a request path names. A path that names none is
    /// answered as unimplemented by the endpoint.
    pub fn route(path: &str) -> (method: Option<TestatorMethod>)
        ensures
            method == TestatorMethod::of_path(path@),
    {
        if same_text(path, TestatorMethod::Ping.path()) {
            Some(TestatorMethod::Ping)
        } else if same_text(path, TestatorMethod::SaveServerShare.path()) {
            Some(TestatorMethod::SaveServerShare)
        } else {
            None
        }
    }
}

impl BeneficiaryMethod {
    /// The path under which the method is reached.
    pub open spec fn spec_path(self) -> Seq<char> {
        match self {
            BeneficiaryMethod::VerifyServerShare => {
                "/beneficiary.BeneficiaryAPI/VerifyServerShare"@
            },
            BeneficiaryMethod::GetChallenge => "/beneficiary.BeneficiaryAPI/GetChallenge"@,
            BeneficiaryMethod::ObtainServerSecretShare => {
                "/beneficiary.BeneficiaryAPI/ObtainServerSecretShare"@
            },
        }
    }

    /// The method that a path names, if it names one of this endpoint.
    pub open spec fn of_path(path: Seq<char>) -> Option<BeneficiaryMethod> {
        if path == BeneficiaryMethod::VerifyServerShare.spec_path() {
            Some(BeneficiaryMethod::VerifyServerShare)
        } else if path == BeneficiaryMethod::GetChallenge.spec_path() {
            Some(BeneficiaryMethod::GetChallenge)
        } else if path == BeneficiaryMethod::ObtainServerSecretShare.spec_path() {
            Some(BeneficiaryMethod::ObtainServerSecretShare)
        } else {
            None
        }
    }

    /// The path under which the method is reached.
    pub fn path(self) -> (path: &'static str)
        ensures
            path@ == self.spec_path(),
    {
        match self {
            BeneficiaryMethod::VerifyServerShare => {
                "/beneficiary.BeneficiaryAPI/VerifyServerShare"
            },
            BeneficiaryMethod::GetChallenge => "/beneficiary.BeneficiaryAPI/GetChallenge",
            BeneficiaryMethod::ObtainServerSecretShare => {
                "/beneficiary.BeneficiaryAPI/ObtainServerSecretShare"
            },
        }
    }

    /// Finds the method that a request path names. A path that names none is
    /// answered as unimplemented by the endpoint.
    pub fn route(path: &str) -> (method: Option<BeneficiaryMethod>)
        ensures
            method == BeneficiaryMethod::of_path(path@),
    {
        if same_text(path, BeneficiaryMethod::VerifyServerShare.path()) {
            Some(BeneficiaryMethod::VerifyServerShare)
        } else if same_text(path, BeneficiaryMethod::GetChallenge.path()) {
            Some(BeneficiaryMethod::GetChallenge)
        } else if same_text(path, BeneficiaryMethod::ObtainServerSecretShare.path()) {
            Some(BeneficiaryMethod::ObtainServerSecretShare)
        } else {
            None
        }
    }
}

/// A path that names a method leads back to that method: no two methods of
/// the testator's endpoint share a path.
pub proof fn lemma_testator_paths_differ(method: TestatorMethod)
    ensures
        TestatorMethod::of_path(method.spec_path()) == Some(method),
{
    reveal_strlit("/testator.TestatorAPI/Ping");
    reveal_strlit("/testator.TestatorAPI/SaveServerShare");
    assert("/testator.TestatorAPI/Ping"@.len() != "/testator.TestatorAPI/SaveServerShare"@.len());
}

/// A path that names a method leads back to that method: no two methods of
/// the beneficiary's endpoint share a path.
pub proof fn lemma_beneficiary_paths_differ(method: BeneficiaryMethod)
    ensures
        BeneficiaryMethod::of_path(method.spec_path()) == Some(method),
{
    reveal_strlit("/beneficiary.BeneficiaryAPI/VerifyServerShare");
    reveal_strlit("/beneficiary.BeneficiaryAPI/GetChallenge");
    reveal_strlit("/beneficiary.BeneficiaryAPI/ObtainServerSecretShare");
    let get = "/beneficiary.BeneficiaryAPI/GetChallenge"@;
    let obtain = "/beneficiary.BeneficiaryAPI/ObtainServerSecretShare"@;
    assert(get.len() != obtain.len());
}

} // verus!
