pub mod error;
pub mod traits;
pub mod framework;
pub mod dist;
pub mod dom;
pub mod trans;
pub mod comb;
pub mod interactive;
pub mod composition;
pub mod samplers;
pub mod meas;
pub mod text;
pub mod data;
pub mod bcm;
pub mod bootstrap;
pub mod signature;
pub mod reconcile;
