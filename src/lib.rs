//! Site URL discovery (robots.txt, sitemap.xml, recursive sitemap expansion)
//! and the per-URL bookkeeping of the document materialization pipeline.
pub mod cli;
pub mod discovery;
pub mod expansion;
pub mod fetch;
pub mod materialize;
pub mod robots;
pub mod sitemap;
pub mod text;
