//! Tuning suite for the BC-250 APU.
pub mod acpi;
pub mod activity;
pub mod board;
pub mod compute;
pub mod cores;
pub mod cores_page;
pub mod cpu;
pub mod cpu_page;
pub mod cu;
pub mod cu_page;
pub mod curoute;
pub mod cutest;
pub mod detect;
pub mod double;
pub mod dpm;
pub mod gather;
pub mod gpuctl;
pub mod hal;
pub mod kbuild;
pub mod manual_book;
pub mod manual_data;
pub mod ocq3;
pub mod pages;
pub mod patches;
pub mod popup;
pub mod profile;
pub mod refresh;
pub mod screen;
pub mod smu;
pub mod sorted;
pub mod status;
pub mod stress;
pub mod telemetry;
pub mod text;
pub mod ui;
