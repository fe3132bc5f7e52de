//! Which noisy dependency targets are muted at each verbosity.
use vstd::prelude::*;

verus! {

/// The directives added at verbosity `v`, all at `warn`: each step of `--verbose`
/// unmutes one more group of the noisier dependency targets.
pub open spec fn noisy_directives_of(v: u8) -> Seq<Seq<char>> {
    (if v < 5 {
        seq!["quinn_proto::connection=warn"@]
    } else {
        Seq::empty()
    }) + (if v < 4 {
        seq![
            "h2::proto=warn"@,
            "rustls::client=warn"@,
            "quinn_proto=warn"@,
            "rustls_platform_verifier=warn"@,
        ]
    } else {
        Seq::empty()
    }) + (if v < 3 {
        seq!["h2::codec=warn"@, "h2::hpack=warn"@, "h2::client=warn"@]
    } else {
        Seq::empty()
    }) + (if v < 2 {
        seq!["hyper_util::client=warn"@, "hickory_proto=warn"@, "rustls=warn"@, "h2::frame=warn"@]
    } else {
        Seq::empty()
    }) + (if v < 1 {
        seq!["reqwest::connect=warn"@]
    } else {
        Seq::empty()
    })
}

/// The filter directives that mute noisy dependency targets at verbosity `verbose`.
pub fn noisy_directives(verbose: u8) -> (r: Vec<&'static str>)
    ensures
        r@.map_values(|s: &str| s@) == noisy_directives_of(verbose),
{
    let mut out: Vec<&'static str> = Vec::new();
    if verbose < 5 {
        out.push("quinn_proto::connection=warn");
    }
    if verbose < 4 {
        out.push("h2::proto=warn");
        out.push("rustls::client=warn");
        out.push("quinn_proto=warn");
        out.push("rustls_platform_verifier=warn");
    }
    if verbose < 3 {
        out.push("h2::codec=warn");
        out.push("h2::hpack=warn");
        out.push("h2::client=warn");
    }
    if verbose < 2 {
        out.push("hyper_util::client=warn");
        out.push("hickory_proto=warn");
        out.push("rustls=warn");
        out.push("h2::frame=warn");
    }
    if verbose < 1 {
        out.push("reqwest::connect=warn");
    }
    proof {
        assert(out@.map_values(|s: &str| s@) =~= noisy_directives_of(verbose));
    }
    out
}

/// More verbosity never mutes more: the directives at a higher verbosity are the
/// first of those at a lower one.
pub proof fn lemma_verbosity_unmutes(lo: u8, hi: u8, i: int)
    requires
        lo <= hi,
        0 <= i < noisy_directives_of(hi).len(),
    ensures
        noisy_directives_of(hi).len() <= noisy_directives_of(lo).len(),
        noisy_directives_of(lo)[i] == noisy_directives_of(hi)[i],
{
    let a = noisy_directives_of(hi);
    let b = noisy_directives_of(lo);
    assert(a =~= b.take(a.len() as int));
    assert(b[i] == a[i]);
}

} // verus!
