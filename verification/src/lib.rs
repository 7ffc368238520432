//! Key/value configuration parsing, in-memory data sources and a small
//! process table, with their contracts proved by Verus.

pub mod texte;
pub mod table;
pub mod es;
pub mod regles;
pub mod ini;
pub mod strict;
pub mod sans_doublon;
pub mod config;
pub mod generique;
pub mod kv;
pub mod processus;
pub mod lecteurs;
pub mod sources;
pub mod lecture_simple;
pub mod lecture_tolerante;
pub mod blocs;
pub mod syswatch;
pub mod calculatrice;
