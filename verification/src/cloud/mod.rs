//! The link to the cloud.
pub mod action;
pub mod answer;
pub mod frame;
pub mod link;
pub mod local;
pub mod login;
pub mod manager;
pub mod message;
pub mod promises;
pub mod proxy;
