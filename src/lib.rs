//! Maps Java source files to their compiled class files, decodes class-file
//! headers, and tallies the JDK versions that produced them.

/// Decimal notation of unsigned integers.
pub mod decimal;
/// Class file headers and JDK release labels.
pub mod header;
/// File names and `/`-separated relative paths.
pub mod names;
/// Splitting a source tree into Java sources and other files.
pub mod scan;
/// Finding the class files of one source file.
pub mod resolve;
/// Resolving every source file before anything is copied.
pub mod plan;
/// Class files grouped by JDK release.
pub mod tally;
