//! Retirement-profile resolution, projection helpers and Monte Carlo surface rules of a
//! personal-finance planner, with their contracts proved by Verus.
pub mod date;
pub mod decimal;
pub mod text;
pub mod profile;
pub mod series;
pub mod calendar;
pub mod plan;
pub mod bands;
pub mod savings;
pub mod planning;
pub mod deflate;
pub mod milestones;
pub mod compound;
pub mod ledger;
pub mod whatif;
pub mod assembly;
pub mod response;
pub mod member;
