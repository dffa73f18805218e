use lapsphere::prime::{prime_switch, PrimeError, PrimeTool};

#[test]
fn optimus_manager_gets_its_own_mode_words() {
    let s = prime_switch("on-demand", true).unwrap();
    assert_eq!((s.tool, s.mode.as_str()), (PrimeTool::OptimusManager, "hybrid"));
    let s = prime_switch("intel", true).unwrap();
    assert_eq!(s.mode, "integrated");
    let s = prime_switch("nvidia", true).unwrap();
    assert_eq!(s.mode, "nvidia");
}

#[test]
fn prime_select_gets_the_profile() {
    let s = prime_switch("intel", false).unwrap();
    assert_eq!((s.tool, s.mode.as_str()), (PrimeTool::PrimeSelect, "intel"));
}

#[test]
fn unknown_profiles_are_refused() {
    assert_eq!(prime_switch("hybrid", true).unwrap_err(), PrimeError::InvalidProfile);
    assert_eq!(prime_switch("", false).unwrap_err(), PrimeError::InvalidProfile);
}
