use will::proto::route::{
    same_text, BeneficiaryMethod, TestatorMethod, BENEFICIARY_SERVICE, TESTATOR_SERVICE,
};

#[test]
fn testator_paths() {
    assert_eq!(TestatorMethod::route("/testator.TestatorAPI/Ping"), Some(TestatorMethod::Ping));
    assert_eq!(
        TestatorMethod::route("/testator.TestatorAPI/SaveServerShare"),
        Some(TestatorMethod::SaveServerShare)
    );
    for method in [TestatorMethod::Ping, TestatorMethod::SaveServerShare] {
        assert_eq!(TestatorMethod::route(method.path()), Some(method));
        assert!(method.path().starts_with(&format!("/{}/", TESTATOR_SERVICE)));
    }
}

#[test]
fn beneficiary_paths() {
    assert_eq!(
        BeneficiaryMethod::route("/beneficiary.BeneficiaryAPI/VerifyServerShare"),
        Some(BeneficiaryMethod::VerifyServerShare)
    );
    assert_eq!(
        BeneficiaryMethod::route("/beneficiary.BeneficiaryAPI/GetChallenge"),
        Some(BeneficiaryMethod::GetChallenge)
    );
    assert_eq!(
        BeneficiaryMethod::route("/beneficiary.BeneficiaryAPI/ObtainServerSecretShare"),
        Some(BeneficiaryMethod::ObtainServerSecretShare)
    );
    for method in [
        BeneficiaryMethod::VerifyServerShare,
        BeneficiaryMethod::GetChallenge,
        BeneficiaryMethod::ObtainServerSecretShare,
    ] {
        assert_eq!(BeneficiaryMethod::route(method.path()), Some(method));
        assert!(method.path().starts_with(&format!("/{}/", BENEFICIARY_SERVICE)));
    }
}

#[test]
fn each_endpoint_knows_only_its_own_methods() {
    assert_eq!(TestatorMethod::route("/beneficiary.BeneficiaryAPI/GetChallenge"), None);
    assert_eq!(BeneficiaryMethod::route("/testator.TestatorAPI/Ping"), None);
    assert_eq!(BeneficiaryMethod::route("/testator.TestatorAPI/SaveServerShare"), None);
}

#[test]
fn other_paths_name_no_method() {
    for path in ["", "/", "/testator.TestatorAPI/ping", "/testator.TestatorAPI/Ping/", "Ping"] {
        assert_eq!(TestatorMethod::route(path), None);
        assert_eq!(BeneficiaryMethod::route(path), None);
    }
}

#[test]
fn texts_are_compared_as_a_whole() {
    assert!(same_text("", ""));
    assert!(same_text("häagen", "häagen"));
    assert!(!same_text("a", "b"));
    assert!(!same_text("a", "ab"));
}
