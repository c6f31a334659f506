//! Reading the archive that a PyInstaller launcher carries after its native
//! code: the header, the table of contents and the payload of each entry.

pub mod bytes;
pub mod error;
pub mod signature;
pub mod header;
pub mod layout;
pub mod kind;
pub mod name;
pub mod toc;
pub mod nested;
pub mod inflate;
pub mod path;
pub mod extract;
pub mod run;
pub mod archive;
