use multihawk::names::{
    parse_baseline_family, parse_kernel_family, parse_sampling_method, BaselineFamily,
    ImmigrantSamplingMethod, KernelFamily, SpecError,
};

#[test]
fn sampling_method_names() {
    assert_eq!(parse_sampling_method("thinning").unwrap(), ImmigrantSamplingMethod::Thinning);
    assert_eq!(
        parse_sampling_method("inverse_transform").unwrap(),
        ImmigrantSamplingMethod::InverseTransform
    );
}

#[test]
fn unsupported_sampling_method_keeps_the_name() {
    match parse_sampling_method("ogata") {
        Err(SpecError::UnsupportedSamplingMethod(name)) => assert_eq!(name, "ogata"),
        other => panic!("unexpected result {:?}", other),
    }
    assert!(parse_sampling_method("Thinning").is_err());
    assert!(parse_sampling_method("thinning ").is_err());
    assert!(parse_sampling_method("").is_err());
}

#[test]
fn baseline_family_names() {
    assert_eq!(parse_baseline_family("constant").unwrap(), BaselineFamily::Constant);
    assert_eq!(
        parse_baseline_family("piecewise_constant").unwrap(),
        BaselineFamily::PiecewiseConstant
    );
    assert_eq!(
        parse_baseline_family("piecewise_linear").unwrap(),
        BaselineFamily::PiecewiseLinear
    );
    match parse_baseline_family("log_linear") {
        Err(SpecError::UnsupportedBaselineKind(name)) => assert_eq!(name, "log_linear"),
        other => panic!("unexpected result {:?}", other),
    }
}

#[test]
fn kernel_family_names() {
    assert_eq!(parse_kernel_family("exponential").unwrap(), KernelFamily::Exponential);
    assert_eq!(
        parse_kernel_family("lagged_exponential").unwrap(),
        KernelFamily::LaggedExponential
    );
    assert_eq!(parse_kernel_family("gamma").unwrap(), KernelFamily::Gamma);
    assert_eq!(
        parse_kernel_family("mixed_exponential").unwrap(),
        KernelFamily::MixedExponential
    );
    assert_eq!(parse_kernel_family("power_law").unwrap(), KernelFamily::PowerLaw);
    match parse_kernel_family("exponentia") {
        Err(SpecError::UnsupportedKernelKind(name)) => assert_eq!(name, "exponentia"),
        other => panic!("unexpected result {:?}", other),
    }
}

#[test]
fn non_ascii_names_are_refused() {
    assert!(parse_kernel_family("gammä").is_err());
    assert!(parse_baseline_family("cönstant").is_err());
}
