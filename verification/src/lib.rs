//! Reading what an eopkg package archive says of itself: the metadata and
//! the file list that the archive's two XML members hold.

pub mod date;
pub mod error;
pub mod files;
pub mod metadata;
pub mod package;
pub mod schema;
pub mod text;
pub mod xml;

pub use crate::date::Date;
pub use crate::error::Error;
pub use crate::files::{File, Files, Filetype};
pub use crate::metadata::{Dependency, Package, Pisi, Source, Update, User};
pub use crate::package::EopkgPackage;
pub use crate::xml::{Attribute, NodeKind, XmlNode};
