#![allow(non_snake_case)]
#![allow(non_camel_case_types)]

pub mod activity;
pub mod text;
pub mod synco_runs;
pub mod timestamp;
pub mod database;
pub mod reference;
pub mod config;
pub mod data_walker;
pub mod reconcile;
