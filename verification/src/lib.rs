//! Light rays falling toward a Schwarzschild black hole.
//!
//! The library holds the verified part of a small relativistic ray
//! animation: the lifecycle of a simulated light ray (alive until it
//! crosses a safety margin above the event horizon, then absorbed for
//! good), its bounded motion trail, and the pixel-buffer drawing of
//! filled circles.
//!
//! Numeric state is carried as IEEE-754 binary64 bit patterns (see
//! [`scalar::Scalar`]). The geodesic arithmetic itself — the Runge-Kutta
//! stages and the trigonometric conversions — is floating point and is
//! performed by the unverified caller, which hands each ray its next
//! state; the library makes every decision about what to do with it.

pub mod ray;
pub mod render;
pub mod scalar;
