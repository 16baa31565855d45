//! Geometry-free core of an OBJ/MTL to scene-graph converter: command-line
//! option values, file-name extraction and the material-file line reassembler.
pub mod mtl;
pub mod options;
pub mod paths;
pub mod text;
