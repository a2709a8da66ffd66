//! Orchestration core of a multi-account mining client: a supervisor that
//! launches and later terminates one workload process per identity through
//! on-disk registry artifacts, and a coordinator that claims rewards for a
//! batch of identities and reports one outcome per decodable identity.
pub mod text;
pub mod sweep;
pub mod launch;
pub mod credentials;
pub mod display;
pub mod claim;
