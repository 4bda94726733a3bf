//! Fractal descriptions that take no parameter.
pub mod mandelbrot;
pub mod nova_newton_raphson_z3;
