//! Density maps of escaping orbits of `z <- z^2 + c`: the accumulation
//! buffers, their arithmetic and persistence, and the bookkeeping of the
//! sampling workers.
//!
//! The arithmetic on points of the plane is left to the caller, who tells
//! the library of each point only whether it lies inside the viewing window
//! and which pixel it is recorded in:
//!
//! - `buffer`: grids of cells; `counts`, `rgb`: grids of counts and colours
//! - `persist`, `merge`: the stored form of a grid, and sums of grids
//! - `config`: bands of escape iterations and the settings of a run
//! - `orbit`, `record`: the orbit of a candidate and its trace in the grids
//! - `sampler`, `worker`, `timer`: the state of a worker and its deadline

pub mod buffer;
pub mod config;
pub mod counts;
pub mod merge;
pub mod orbit;
pub mod persist;
pub mod record;
pub mod rgb;
pub mod sampler;
pub mod timer;
pub mod worker;

pub use buffer::Buffer;
pub use config::BufferConfig;
