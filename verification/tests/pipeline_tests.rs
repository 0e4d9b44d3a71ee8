use garage_ray::integrators::PathStep;
use garage_ray::integrators::ScatterOutcome;
use garage_ray::integrators::WhittedIntegrator;
use garage_ray::integrators::depth_exhausted;
use garage_ray::integrators::radiance_step;
use garage_ray::samplers::SamplerPixel;
use garage_ray::spectrum::Spectrum;

#[test]
fn spectrum_reports_itself_non_black() {
    let s = Spectrum::new();
    assert!(!s.is_black());
}

#[test]
fn sampler_pixel_stream_is_empty() {
    let mut pixel = SamplerPixel();
    assert_eq!(pixel.next(), None);
    assert_eq!(pixel.next(), None);
}

#[test]
fn whitted_depth_cutoff_is_hard() {
    let integrator = WhittedIntegrator::new(5);
    assert!(integrator.recurse_specular(0));
    assert!(integrator.recurse_specular(3));
    assert!(!integrator.recurse_specular(4));
    assert!(!integrator.recurse_specular(100));
    let shallow = WhittedIntegrator::new(0);
    assert!(!shallow.recurse_specular(0));
}

#[test]
fn depth_cutoff_fires_exactly_at_the_limit() {
    assert!(!depth_exhausted(0, 50));
    assert!(!depth_exhausted(49, 50));
    assert!(depth_exhausted(50, 50));
    assert!(depth_exhausted(51, 50));
    assert!(depth_exhausted(0, 0));
}

#[test]
fn radiance_decision_table() {
    // below the cutoff, each outcome maps to its one step
    assert_eq!(
        radiance_step(0, 50, ScatterOutcome::Absorbed),
        PathStep::EmittedOnly
    );
    assert_eq!(
        radiance_step(0, 50, ScatterOutcome::Specular),
        PathStep::SpecularBounce
    );
    assert_eq!(
        radiance_step(0, 50, ScatterOutcome::Diffuse { pdf_vanishes: true }),
        PathStep::EmittedOnly
    );
    assert_eq!(
        radiance_step(0, 50, ScatterOutcome::Diffuse { pdf_vanishes: false }),
        PathStep::WeightedBounce
    );
    // at or past the cutoff, every outcome ends with emitted light only
    for outcome in [
        ScatterOutcome::Absorbed,
        ScatterOutcome::Specular,
        ScatterOutcome::Diffuse { pdf_vanishes: false },
    ] {
        assert_eq!(radiance_step(50, 50, outcome), PathStep::EmittedOnly);
        assert_eq!(radiance_step(80, 50, outcome), PathStep::EmittedOnly);
    }
}
