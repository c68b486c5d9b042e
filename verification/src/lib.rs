//! Extraction of structured records (headers, templates, comments) from
//! wiki-markup page dumps: a namespace registry, a title normalizer, a
//! template-parameter resolver, a recursive markup-tree walker with a
//! section-header stack, and an output multiplexer that routes extracted
//! records to deduplicated destination sinks.

pub mod dumper;
pub mod header_stack;
pub mod header_stats;
pub mod namespace;
pub mod nodes;
pub mod pipeline;
pub mod records;
pub mod redirects;
pub mod sections;
pub mod sink;
pub mod template_parameters;
pub mod text;
pub mod title;
pub mod walker;
