//! A test-fixture factory runtime: a factory freezes a structural snapshot of
//! a template model together with a generator function, and each build hands
//! out a fresh, independent copy of the template, varied by a monotonically
//! increasing sequence number and an optional per-call override.

pub mod alphabet;
pub mod factory;
pub mod fafactory;
pub mod model;
pub mod snapshot;

pub use factory::Factory;
pub use factory::FactoryError;
pub use factory::new;
pub use factory::sequence;
pub use factory::sequence_a;
pub use alphabet::to_alphabet;
pub use fafactory::FaFactory;
pub use fafactory::nnew;
pub use model::Field;
pub use model::Model;
pub use model::ModelView;
pub use model::models_equal;
pub use snapshot::Snapshot;
pub use snapshot::capture;
pub use snapshot::duplicate;
pub use snapshot::materialize;
