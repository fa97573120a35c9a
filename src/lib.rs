//! Extraction of pack archives onto a filesystem: the decisions of the
//! extractor, proved against a model of the files it writes.
pub mod entry_path;
pub mod pattern;
pub mod report;
pub mod model;
