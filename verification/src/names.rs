use vstd::prelude::*;

verus! {

/// Whether the two strings hold the same characters.
fn same_chars(s: &str, literal: &str) -> (b: bool)
    ensures
        b == (s@ == literal@),
{
    let n = s.unicode_len();
    let m = literal.unicode_len();
    if n != m {
        return false;
    }
    let mut i: usize = 0;
    while i < n
        invariant
            n == s@.len(),
            m == literal@.len(),
            n == m,
            i <= n,
            forall|k: int| 0 <= k < i ==> s@[k] == literal@[k],
        decreases n - i,
    {
        if s.get_char(i) != literal.get_char(i) {
            return false;
        }
        i = i + 1;
    }
    assert(s@ =~= literal@);
    true
}

/// How the immigrant (background) events of the process are drawn.
#[derive(Clone, Copy, Debug, PartialEq, Eq, Structural)]
pub enum ImmigrantSamplingMethod {
    /// Thinning of a homogeneous process against an upper envelope.
    Thinning,
    /// Inversion of the cumulative baseline intensity.
    InverseTransform,
}

/// The name under which a sampling method is requested.
pub open spec fn sampling_method_name(method: ImmigrantSamplingMethod) -> Seq<char> {
    match method {
        ImmigrantSamplingMethod::Thinning => "thinning"@,
        ImmigrantSamplingMethod::InverseTransform => "inverse_transform"@,
    }
}

/// An unsupported name in a simulation request; the name is kept.
#[derive(Debug)]
pub enum SpecError {
    UnsupportedSamplingMethod(String),
    UnsupportedBaselineKind(String),
    UnsupportedKernelKind(String),
}

/// Reads the name of an immigrant sampling method.
pub fn parse_sampling_method(method: &str) -> (r: Result<ImmigrantSamplingMethod, SpecError>)
    ensures
        r matches Ok(m) ==> sampling_method_name(m) == method@,
        r is Err <==> (forall|m: ImmigrantSamplingMethod| sampling_method_name(m) != method@),
        r matches Err(e) ==> (e matches SpecError::UnsupportedSamplingMethod(name) && name@ == method@),
{
    proof {
        reveal_strlit("thinning");
        reveal_strlit("inverse_transform");
    }
    if same_chars(method, "thinning") {
        assert(sampling_method_name(ImmigrantSamplingMethod::Thinning) == method@);
        Ok(ImmigrantSamplingMethod::Thinning)
    } else if same_chars(method, "inverse_transform") {
        assert(sampling_method_name(ImmigrantSamplingMethod::InverseTransform) == method@);
        Ok(ImmigrantSamplingMethod::InverseTransform)
    } else {
        assert forall|m: ImmigrantSamplingMethod| sampling_method_name(m) != method@ by {
            match m {
                ImmigrantSamplingMethod::Thinning => {},
                ImmigrantSamplingMethod::InverseTransform => {},
            }
        }
        Err(SpecError::UnsupportedSamplingMethod(method.to_owned()))
    }
}

/// The families of baseline intensity that a simulation request can name.
#[derive(Clone, Copy, Debug, PartialEq, Eq, Structural)]
pub enum BaselineFamily {
    /// A time-homogeneous rate per dimension.
    Constant,
    /// A rate per dimension and per interval between breakpoints.
    PiecewiseConstant,
    /// Linear interpolation between per-breakpoint values.
    PiecewiseLinear,
}

/// The name under which a baseline family is requested.
pub open spec fn baseline_family_name(family: BaselineFamily) -> Seq<char> {
    match family {
        BaselineFamily::Constant => "constant"@,
        BaselineFamily::PiecewiseConstant => "piecewise_constant"@,
        BaselineFamily::PiecewiseLinear => "piecewise_linear"@,
    }
}

/// The families of triggering kernel that a simulation request can name.
#[derive(Clone, Copy, Debug, PartialEq, Eq, Structural)]
pub enum KernelFamily {
    /// Exponential decay per interaction pair.
    Exponential,
    /// Exponential decay that begins after a fixed lag.
    LaggedExponential,
    /// Gamma-distributed delays.
    Gamma,
    /// A mixture of exponential components per pair.
    MixedExponential,
    /// Lomax (power-law) delays.
    PowerLaw,
}

/// The name under which a kernel family is requested.
pub open spec fn kernel_family_name(family: KernelFamily) -> Seq<char> {
    match family {
        KernelFamily::Exponential => "exponential"@,
        KernelFamily::LaggedExponential => "lagged_exponential"@,
        KernelFamily::Gamma => "gamma"@,
        KernelFamily::MixedExponential => "mixed_exponential"@,
        KernelFamily::PowerLaw => "power_law"@,
    }
}

/// Reads the name of a baseline family.
pub fn parse_baseline_family(kind: &str) -> (r: Result<BaselineFamily, SpecError>)
    ensures
        r matches Ok(f) ==> baseline_family_name(f) == kind@,
        r is Err <==> (forall|f: BaselineFamily| baseline_family_name(f) != kind@),
        r matches Err(e) ==> (e matches SpecError::UnsupportedBaselineKind(name) && name@ == kind@),
{
    proof {
        reveal_strlit("constant");
        reveal_strlit("piecewise_constant");
        reveal_strlit("piecewise_linear");
    }
    if same_chars(kind, "constant") {
        assert(baseline_family_name(BaselineFamily::Constant) == kind@);
        Ok(BaselineFamily::Constant)
    } else if same_chars(kind, "piecewise_constant") {
        assert(baseline_family_name(BaselineFamily::PiecewiseConstant) == kind@);
        Ok(BaselineFamily::PiecewiseConstant)
    } else if same_chars(kind, "piecewise_linear") {
        assert(baseline_family_name(BaselineFamily::PiecewiseLinear) == kind@);
        Ok(BaselineFamily::PiecewiseLinear)
    } else {
        assert forall|f: BaselineFamily| baseline_family_name(f) != kind@ by {
            match f {
                BaselineFamily::Constant => {},
                BaselineFamily::PiecewiseConstant => {},
                BaselineFamily::PiecewiseLinear => {},
            }
        }
        Err(SpecError::UnsupportedBaselineKind(kind.to_owned()))
    }
}

/// Reads the name of a kernel family.
pub fn parse_kernel_family(kind: &str) -> (r: Result<KernelFamily, SpecError>)
    ensures
        r matches Ok(f) ==> kernel_family_name(f) == kind@,
        r is Err <==> (forall|f: KernelFamily| kernel_family_name(f) != kind@),
        r matches Err(e) ==> (e matches SpecError::UnsupportedKernelKind(name) && name@ == kind@),
{
    proof {
        reveal_strlit("exponential");
        reveal_strlit("lagged_exponential");
        reveal_strlit("gamma");
        reveal_strlit("mixed_exponential");
        reveal_strlit("power_law");
    }
    if same_chars(kind, "exponential") {
        assert(kernel_family_name(KernelFamily::Exponential) == kind@);
        Ok(KernelFamily::Exponential)
    } else if same_chars(kind, "lagged_exponential") {
        assert(kernel_family_name(KernelFamily::LaggedExponential) == kind@);
        Ok(KernelFamily::LaggedExponential)
    } else if same_chars(kind, "gamma") {
        assert(kernel_family_name(KernelFamily::Gamma) == kind@);
        Ok(KernelFamily::Gamma)
    } else if same_chars(kind, "mixed_exponential") {
        assert(kernel_family_name(KernelFamily::MixedExponential) == kind@);
        Ok(KernelFamily::MixedExponential)
    } else if same_chars(kind, "power_law") {
        assert(kernel_family_name(KernelFamily::PowerLaw) == kind@);
        Ok(KernelFamily::PowerLaw)
    } else {
        assert forall|f: KernelFamily| kernel_family_name(f) != kind@ by {
            match f {
                KernelFamily::Exponential => {},
                KernelFamily::LaggedExponential => {},
                KernelFamily::Gamma => {},
                KernelFamily::MixedExponential => {},
                KernelFamily::PowerLaw => {},
            }
        }
        Err(SpecError::UnsupportedKernelKind(kind.to_owned()))
    }
}

/// Distinct sampling methods, baseline families and kernel families go by
/// distinct names, so each name selects at most one of them.
pub proof fn lemma_names_are_distinct(
    m1: ImmigrantSamplingMethod,
    m2: ImmigrantSamplingMethod,
    b1: BaselineFamily,
    b2: BaselineFamily,
    k1: KernelFamily,
    k2: KernelFamily,
)
    ensures
        sampling_method_name(m1) == sampling_method_name(m2) ==> m1 == m2,
        baseline_family_name(b1) == baseline_family_name(b2) ==> b1 == b2,
        kernel_family_name(k1) == kernel_family_name(k2) ==> k1 == k2,
{
    reveal_strlit("thinning");
    reveal_strlit("inverse_transform");
    reveal_strlit("constant");
    reveal_strlit("piecewise_constant");
    reveal_strlit("piecewise_linear");
    reveal_strlit("exponential");
    reveal_strlit("lagged_exponential");
    reveal_strlit("gamma");
    reveal_strlit("mixed_exponential");
    reveal_strlit("power_law");
    // all names of one kind differ in length
    assert(sampling_method_name(ImmigrantSamplingMethod::Thinning).len() == 8);
    assert(sampling_method_name(ImmigrantSamplingMethod::InverseTransform).len() == 17);
    assert(baseline_family_name(BaselineFamily::Constant).len() == 8);
    assert(baseline_family_name(BaselineFamily::PiecewiseConstant).len() == 18);
    assert(baseline_family_name(BaselineFamily::PiecewiseLinear).len() == 16);
    assert(kernel_family_name(KernelFamily::Exponential).len() == 11);
    assert(kernel_family_name(KernelFamily::LaggedExponential).len() == 18);
    assert(kernel_family_name(KernelFamily::Gamma).len() == 5);
    assert(kernel_family_name(KernelFamily::MixedExponential).len() == 17);
    assert(kernel_family_name(KernelFamily::PowerLaw).len() == 9);
}

} // verus!
