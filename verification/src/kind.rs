//! The one-byte tag that says what an entry holds.

use vstd::prelude::*;

verus! {

/// Tag of the nested archive of compiled modules, `z`.
pub const TAG_NESTED_CONTAINER: u8 = 0x7A;

/// Tag of a script run at start-up, `s`.
pub const TAG_SOURCE_MODULE: u8 = 0x73;

/// Tag of a shared library or executable, `b`.
pub const TAG_BINARY: u8 = 0x62;

/// Tag of a reference to a file in another archive, `d`.
pub const TAG_DEPENDENCY: u8 = 0x64;

/// Tag of a zip file, `Z`.
pub const TAG_ZIP_FILE: u8 = 0x5A;

/// Tag of a package's initialiser, `M`.
pub const TAG_PACKAGE: u8 = 0x4D;

/// Tag of a module, `m`.
pub const TAG_MODULE: u8 = 0x6D;

/// Tag of a data file, `x`.
pub const TAG_DATA: u8 = 0x78;

/// Tag of an option for the interpreter, `o`.
pub const TAG_RUNTIME_OPTION: u8 = 0x6F;

/// Tag of the splash screen's resources, `l`.
pub const TAG_SPLASH: u8 = 0x6C;

/// Tag of a symbolic link, `n`.
pub const TAG_SYMLINK: u8 = 0x6E;

/// What an entry holds. Only `SourceModule` and `NestedContainer` change
/// how an entry is treated; every other kind is copied out as it is.
#[derive(Clone, Copy, Debug, PartialEq, Eq, Structural)]
pub enum EntryKind {
    NestedContainer,
    SourceModule,
    Binary,
    Dependency,
    ZipFile,
    Package,
    Module,
    Data,
    RuntimeOption,
    Splash,
    Symlink,
    /// A tag that has no name here.
    Other(u8),
}

/// The kind that a tag byte stands for.
pub open spec fn kind_of_tag(tag: u8) -> EntryKind {
    if tag == TAG_NESTED_CONTAINER {
        EntryKind::NestedContainer
    } else if tag == TAG_SOURCE_MODULE {
        EntryKind::SourceModule
    } else if tag == TAG_BINARY {
        EntryKind::Binary
    } else if tag == TAG_DEPENDENCY {
        EntryKind::Dependency
    } else if tag == TAG_ZIP_FILE {
        EntryKind::ZipFile
    } else if tag == TAG_PACKAGE {
        EntryKind::Package
    } else if tag == TAG_MODULE {
        EntryKind::Module
    } else if tag == TAG_DATA {
        EntryKind::Data
    } else if tag == TAG_RUNTIME_OPTION {
        EntryKind::RuntimeOption
    } else if tag == TAG_SPLASH {
        EntryKind::Splash
    } else if tag == TAG_SYMLINK {
        EntryKind::Symlink
    } else {
        EntryKind::Other(tag)
    }
}

impl EntryKind {
    /// The byte that stands for this kind in a record.
    pub open spec fn spec_tag(self) -> u8 {
        match self {
            EntryKind::NestedContainer => TAG_NESTED_CONTAINER,
            EntryKind::SourceModule => TAG_SOURCE_MODULE,
            EntryKind::Binary => TAG_BINARY,
            EntryKind::Dependency => TAG_DEPENDENCY,
            EntryKind::ZipFile => TAG_ZIP_FILE,
            EntryKind::Package => TAG_PACKAGE,
            EntryKind::Module => TAG_MODULE,
            EntryKind::Data => TAG_DATA,
            EntryKind::RuntimeOption => TAG_RUNTIME_OPTION,
            EntryKind::Splash => TAG_SPLASH,
            EntryKind::Symlink => TAG_SYMLINK,
            EntryKind::Other(tag) => tag,
        }
    }

    /// `Other` holds only tags that have no variant of their own, so that
    /// each tag is written in one way.
    pub open spec fn wf(self) -> bool {
        kind_of_tag(self.spec_tag()) == self
    }

    /// The kind that `tag` stands for.
    pub fn from_tag(tag: u8) -> (kind: EntryKind)
        ensures
            kind == kind_of_tag(tag),
            kind.wf(),
            kind.spec_tag() == tag,
    {
        if tag == TAG_NESTED_CONTAINER {
            EntryKind::NestedContainer
        } else if tag == TAG_SOURCE_MODULE {
            EntryKind::SourceModule
        } else if tag == TAG_BINARY {
            EntryKind::Binary
        } else if tag == TAG_DEPENDENCY {
            EntryKind::Dependency
        } else if tag == TAG_ZIP_FILE {
            EntryKind::ZipFile
        } else if tag == TAG_PACKAGE {
            EntryKind::Package
        } else if tag == TAG_MODULE {
            EntryKind::Module
        } else if tag == TAG_DATA {
            EntryKind::Data
        } else if tag == TAG_RUNTIME_OPTION {
            EntryKind::RuntimeOption
        } else if tag == TAG_SPLASH {
            EntryKind::Splash
        } else if tag == TAG_SYMLINK {
            EntryKind::Symlink
        } else {
            EntryKind::Other(tag)
        }
    }

    /// The byte that stands for this kind in a record.
    #[verifier::when_used_as_spec(spec_tag)]
    pub fn tag(self) -> (tag: u8)
        ensures
            tag == self.spec_tag(),
    {
        match self {
            EntryKind::NestedContainer => TAG_NESTED_CONTAINER,
            EntryKind::SourceModule => TAG_SOURCE_MODULE,
            EntryKind::Binary => TAG_BINARY,
            EntryKind::Dependency => TAG_DEPENDENCY,
            EntryKind::ZipFile => TAG_ZIP_FILE,
            EntryKind::Package => TAG_PACKAGE,
            EntryKind::Module => TAG_MODULE,
            EntryKind::Data => TAG_DATA,
            EntryKind::RuntimeOption => TAG_RUNTIME_OPTION,
            EntryKind::Splash => TAG_SPLASH,
            EntryKind::Symlink => TAG_SYMLINK,
            EntryKind::Other(tag) => tag,
        }
    }

    /// Whether this is the kind whose name gets the bytecode extension and
    /// whose inflated payload gets the bytecode magic in front.
    pub fn is_source_module(self) -> (yes: bool)
        ensures
            yes == (self == EntryKind::SourceModule),
    {
        match self {
            EntryKind::SourceModule => true,
            _ => false,
        }
    }

    /// Whether this is the nested archive whose header carries the
    /// interpreter's bytecode magic.
    pub fn is_nested_container(self) -> (yes: bool)
        ensures
            yes == (self == EntryKind::NestedContainer),
    {
        match self {
            EntryKind::NestedContainer => true,
            _ => false,
        }
    }
}

} // verus!
