use honest_did::report::method_label;
use honest_did::types::HonestJointPathMethod;

#[test]
fn methods_have_labels() {
    assert_eq!(method_label(HonestJointPathMethod::Bonferroni), "bonferroni");
    assert_eq!(
        method_label(HonestJointPathMethod::GaussianSimulated),
        "gaussian_simulated"
    );
}
