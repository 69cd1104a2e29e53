//! The logic of the BakeryOS developer setup wizard: the package catalogue, its search, the
//! selection of packages, and their installation step by step.

pub mod card;
pub mod catalog;
pub mod event;
pub mod install;
pub mod package_info;
pub mod package_service;
pub mod search;
pub mod selection;
pub mod text;
