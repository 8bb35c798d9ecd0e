pub mod boundary;
pub mod capture;
pub mod classroom;
pub mod classroom_courses;
pub mod cli;
pub mod courses;
pub mod encryption;
pub mod error;
pub mod files;
pub mod json;
pub mod live;
pub mod login;
pub mod model;
pub mod numeral;
pub mod pintia;
pub mod problem_sets;
pub mod request;
pub mod search;
pub mod sequences;
pub mod slides;
pub mod sorting;
pub mod text;
pub mod transcript;
pub mod uploads;
pub mod zdbk;
pub mod zju_assist;
