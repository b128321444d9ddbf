//! An online stroke modeling pipeline: it turns a raw, irregularly sampled
//! stream of pointer events into a smooth, regularly resampled trajectory,
//! and can extrapolate a short speculative tail to hide input latency.
//!
//! All quantities are fixed-point integers (see [`fixed`]); the stages are
//! the wobble smoother, the spring-mass-damper position modeler, the
//! resampler, the stylus state interpolator and two predictors, sequenced by
//! the [`StrokeModeler`] orchestrator.

pub mod fixed;
pub mod kalman;
pub mod modeler;
pub mod params;
pub mod position;
pub mod resample;
pub mod stylus;
pub mod types;
pub mod wobble;

pub use modeler::StrokeModeler;
pub use params::KalmanPredictorParams;
pub use params::PredictionParams;
pub use params::StrokeModelerParams;
pub use types::ModelerError;
pub use types::ModelerInput;
pub use types::ModelerInputEventType;
pub use types::ModelerResult;
