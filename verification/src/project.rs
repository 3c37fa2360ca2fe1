//! Project files, exports and preferences: what is accepted, what they are
//! called, and what is said about them.
//!
//! A project file is a zip archive with one entry, which holds the document as
//! text. Packing and unpacking is the `zip` crate's; what the text says is read and
//! written by the program around the library.

use crate::theme::Theme;
use vstd::prelude::*;

verus! {

/// The version written into project files.
pub const PROJECT_FORMAT_VERSION: u64 = 1;

/// Why an entry of an archive could not be read: the archive itself is broken, the
/// entry cannot be opened, or its contents are broken. Each with the `zip` crate's
/// own words.
#[derive(Clone, PartialEq, Eq, Debug)]
pub enum EntryError {
    Archive(String),
    Entry(String),
    Contents(String),
}

/// What an [`EntryError`] says.
pub enum EntryFault {
    Archive(Seq<char>),
    Entry(Seq<char>),
    Contents(Seq<char>),
}

impl View for EntryError {
    type V = EntryFault;

    open spec fn view(&self) -> EntryFault {
        match self {
            EntryError::Archive(e) => EntryFault::Archive(e@),
            EntryError::Entry(e) => EntryFault::Entry(e@),
            EntryError::Contents(e) => EntryFault::Contents(e@),
        }
    }
}

/// What is found in an archive under a name.
pub uninterp spec fn entry_of(archive: Seq<u8>, name: Seq<char>) -> Result<Seq<u8>, EntryFault>;

/// What came of looking into an archive.
pub open spec fn found(r: Result<Vec<u8>, EntryError>) -> Result<Seq<u8>, EntryFault> {
    match r {
        Ok(contents) => Ok(contents@),
        Err(e) => Err(e@),
    }
}

/// Small letters and dots, and not too many: a name that any archive takes as it is.
pub open spec fn plain_name(name: Seq<char>) -> bool {
    &&& 0 < name.len() < 256
    &&& forall|i: int|
        0 <= i < name.len() ==> 'a' <= #[trigger] name[i] <= 'z' || name[i] == '.'
}

/// Read an entry of a zip archive, with `zip::ZipArchive::new`, `by_name` and
/// reading to the end. What comes back depends on the archive's bytes and the name
/// alone, and is named here, not described.
#[verifier::external_body]
fn read_entry(archive: &[u8], name: &str) -> (r: Result<Vec<u8>, EntryError>)
    ensures
        found(r) == entry_of(archive@, name@),
{
    let mut zip = zip::ZipArchive::new(std::io::Cursor::new(archive))
        .map_err(|e| EntryError::Archive(e.to_string()))?;
    let mut entry = zip.by_name(name).map_err(|e| EntryError::Entry(e.to_string()))?;
    let mut contents: Vec<u8> = Vec::new();
    std::io::Read::read_to_end(&mut entry, &mut contents)
        .map_err(|e| EntryError::Contents(e.to_string()))?;
    Ok(contents)
}

/// Make a zip archive of one deflated entry, with `zip::ZipWriter`'s `start_file`,
/// writing, and `finish`. Reading the entry back gives the contents.
///
/// Written to memory, an entry fails on its size alone: the crate refuses contents
/// of `u32::MAX` bytes or more, and what deflates to as much, unless told of a large
/// file. Deflating lengthens no block by as much as half, so contents of up to
/// `i32::MAX` bytes stay below that. For contents in between, whether the archive
/// can be made is left unsaid, and so are its layout, how well it is compressed, and
/// the crate's words for a failure.
#[verifier::external_body]
fn make_archive(name: &str, contents: &[u8]) -> (r: Result<Vec<u8>, String>)
    requires
        plain_name(name@),
    ensures
        match r {
            Ok(archive) => {
                &&& contents@.len() < u32::MAX
                &&& entry_of(archive@, name@) == Ok::<Seq<u8>, EntryFault>(contents@)
            },
            Err(_) => contents@.len() > i32::MAX,
        },
{
    let mut zip = zip::ZipWriter::new(std::io::Cursor::new(Vec::new()));
    let options = zip::write::SimpleFileOptions::default()
        .compression_method(zip::CompressionMethod::Deflated);
    zip.start_file(name, options).map_err(|e| e.to_string())?;
    std::io::Write::write_all(&mut zip, contents).map_err(|e| e.to_string())?;
    let archive = zip.finish().map_err(|e| e.to_string())?;
    Ok(archive.into_inner())
}

/// What a project file is taken for, given what was found under the name of its
/// entry.
pub open spec fn project_text(entry: Result<Seq<u8>, EntryFault>) -> Result<Seq<u8>, Seq<char>> {
    match entry {
        Ok(text) => Ok(text),
        Err(EntryFault::Archive(e)) => Err(e),
        Err(EntryFault::Entry(e)) => Err("not a Riemanifold project: "@ + e),
        Err(EntryFault::Contents(e)) => Err(e),
    }
}

/// A project's text, or what is said of a file that has none.
pub fn entry_text(entry: Result<Vec<u8>, EntryError>) -> (r: Result<Vec<u8>, String>)
    ensures
        match (r, project_text(found(entry))) {
            (Ok(text), Ok(t)) => text@ == t,
            (Err(message), Err(m)) => message@ == m,
            _ => false,
        },
{
    match entry {
        Ok(text) => Ok(text),
        Err(EntryError::Archive(e)) => Err(e),
        Err(EntryError::Entry(e)) => {
            let mut message = String::from_str("not a Riemanifold project: ");
            message.append(e.as_str());
            Err(message)
        },
        Err(EntryError::Contents(e)) => Err(e),
    }
}

/// The text in a project file.
pub fn unpack_project(file: &[u8]) -> (r: Result<Vec<u8>, String>)
    ensures
        match (r, project_text(entry_of(file@, "document.json"@))) {
            (Ok(text), Ok(t)) => text@ == t,
            (Err(message), Err(m)) => message@ == m,
            _ => false,
        },
{
    entry_text(read_entry(file, "document.json"))
}

/// A project file with the given text in it: unpacking it gives the text back. A
/// text of up to `i32::MAX` bytes can always be packed, one of `u32::MAX` bytes or
/// more never.
pub fn pack_project(text: &[u8]) -> (r: Result<Vec<u8>, String>)
    ensures
        match r {
            Ok(file) => {
                &&& text@.len() < u32::MAX
                &&& project_text(entry_of(file@, "document.json"@)) == Ok::<Seq<u8>, Seq<char>>(
                    text@,
                )
            },
            Err(_) => text@.len() > i32::MAX,
        },
{
    proof {
        reveal_strlit("document.json");
        assert(plain_name("document.json"@));
    }
    make_archive("document.json", text)
}

/// What is said of a project file that cannot be read: another version, where one
/// without a version counts as version zero, or no document in it.
pub open spec fn refusal(version: Option<u64>, has_document: bool) -> Option<Seq<char>> {
    let v = match version {
        Some(v) => v,
        None => 0,
    };
    if v != PROJECT_FORMAT_VERSION {
        Some("unsupported project version "@ + crate::text::decimal(v as nat))
    } else if !has_document {
        Some("missing document"@)
    } else {
        None
    }
}

/// Whether a project file can be read, given its version and whether there is a
/// document in it.
pub fn check_project(version: Option<u64>, has_document: bool) -> (r: Result<(), String>)
    ensures
        match r {
            Ok(_) => refusal(version, has_document) is None,
            Err(message) => refusal(version, has_document) == Some(message@),
        },
{
    let v: u64 = match version {
        Some(v) => v,
        None => 0,
    };
    if v != PROJECT_FORMAT_VERSION {
        let mut message = String::from_str("unsupported project version ");
        message.append(crate::text::decimal_text(v).as_str());
        return Err(message);
    }
    if !has_document {
        return Err(String::from_str("missing document"));
    }
    Ok(())
}

/// Something done with a file.
#[derive(Clone, Copy, PartialEq, Eq, Debug, Structural)]
pub enum FileTask {
    Export,
    Save,
    Open,
}

/// What is said once it is done.
pub open spec fn done_text(task: FileTask) -> Seq<char> {
    match task {
        FileTask::Export => "Exported "@,
        FileTask::Save => "Saved "@,
        FileTask::Open => "Opened "@,
    }
}

/// What is said if it fails.
pub open spec fn failed_text(task: FileTask) -> Seq<char> {
    match task {
        FileTask::Export => "Export failed: "@,
        FileTask::Save => "Save failed: "@,
        FileTask::Open => "Open failed: "@,
    }
}

/// The status line for something done with the file at `path`, or for the error
/// it ended in.
pub fn status_line(task: FileTask, path: &str, error: Option<&str>) -> (r: String)
    ensures
        r@ == (match error {
            None => done_text(task) + path@,
            Some(e) => failed_text(task) + e@,
        }),
{
    let (done, failed) = match task {
        FileTask::Export => ("Exported ", "Export failed: "),
        FileTask::Save => ("Saved ", "Save failed: "),
        FileTask::Open => ("Opened ", "Open failed: "),
    };
    match error {
        None => {
            let mut text = String::from_str(done);
            text.append(path);
            text
        },
        Some(e) => {
            let mut text = String::from_str(failed);
            text.append(e);
            text
        },
    }
}

/// The name offered for a file of the document.
pub fn file_name(document: &str, task: FileTask) -> (r: String)
    ensures
        r@ == document@ + (if task == FileTask::Export {
            ".stl"@
        } else {
            ".cdt"@
        }),
{
    let mut name = String::from_str(document);
    name.append(if task == FileTask::Export {
        ".stl"
    } else {
        ".cdt"
    });
    name
}

/// What the user prefers.
#[derive(Clone, Copy, PartialEq, Eq, Debug, Structural)]
pub struct Prefs {
    pub theme: Theme,
}

/// What is used until the user prefers something.
pub open spec fn default_prefs() -> Prefs {
    Prefs { theme: Theme::Light }
}

impl Default for Prefs {
    fn default() -> (r: Prefs)
        ensures
            r == default_prefs(),
    {
        Prefs { theme: Theme::Light }
    }
}

/// The preferences to use: those read, or the default if there is no file or it
/// cannot be read.
pub fn load(read: Option<Prefs>) -> (r: Prefs)
    ensures
        r == (match read {
            Some(p) => p,
            None => default_prefs(),
        }),
{
    match read {
        Some(p) => p,
        None => Prefs::default(),
    }
}

/// A kind of system, by where it keeps settings.
#[derive(Clone, Copy, PartialEq, Eq, Debug, Structural)]
pub enum Platform {
    MacOs,
    Windows,
    Other,
}

/// Where settings are kept: a directory named in the environment, whatever it is
/// written in, and the path below it.
pub fn config_dir<P>(
    platform: Platform,
    home: Option<P>,
    app_data: Option<P>,
    xdg_config: Option<P>,
) -> (r: Option<(P, &'static str)>)
    ensures
        r == (match platform {
            Platform::MacOs => match home {
                Some(h) => Some((h, "Library/Application Support/Cadette")),
                None => None,
            },
            Platform::Windows => match app_data {
                Some(d) => Some((d, "Cadette")),
                None => None,
            },
            Platform::Other => match (xdg_config, home) {
                (Some(x), _) => Some((x, "Cadette")),
                (None, Some(h)) => Some((h, ".config/Cadette")),
                (None, None) => None,
            },
        }),
{
    match platform {
        Platform::MacOs => match home {
            Some(h) => Some((h, "Library/Application Support/Cadette")),
            None => None,
        },
        Platform::Windows => match app_data {
            Some(d) => Some((d, "Cadette")),
            None => None,
        },
        Platform::Other => match xdg_config {
            Some(x) => Some((x, "Cadette")),
            None => match home {
                Some(h) => Some((h, ".config/Cadette")),
                None => None,
            },
        },
    }
}

/// The preferences file: the settings directory and the file's name in it.
pub fn prefs_path<P>(dir: Option<P>) -> (r: Option<(P, &'static str)>)
    ensures
        r == (match dir {
            Some(d) => Some((d, "prefs.json")),
            None => None,
        }),
{
    match dir {
        Some(d) => Some((d, "prefs.json")),
        None => None,
    }
}

/// Only a file of this version with a document in it is read; of any other the refusal
/// says which version it has, or that there is no document.
pub proof fn law_only_this_version_is_read(version: Option<u64>, has_document: bool)
    ensures
        refusal(version, has_document) is None == (version == Some(1u64) && has_document),
        version == Some(1u64) && !has_document ==> refusal(version, has_document) == Some(
            "missing document"@,
        ),
        version matches Some(v) ==> v != 1 ==> refusal(version, has_document) == Some(
            "unsupported project version "@ + crate::text::decimal(v as nat),
        ),
        version is None ==> refusal(version, has_document) == Some(
            "unsupported project version "@ + crate::text::decimal(0),
        ),
{
}

/// A project's text is what its entry holds; a broken archive is refused in the words
/// of what broke, and one without the entry as no project.
pub proof fn law_a_project_is_its_entry(text: Seq<u8>, e: Seq<char>)
    ensures
        project_text(Ok(text)) == Ok::<Seq<u8>, Seq<char>>(text),
        project_text(Err(EntryFault::Archive(e))) == Err::<Seq<u8>, Seq<char>>(e),
        project_text(Err(EntryFault::Contents(e))) == Err::<Seq<u8>, Seq<char>>(e),
        project_text(Err(EntryFault::Entry(e))) matches Err(m) && m.len() == e.len()
            + "not a Riemanifold project: "@.len() && m.skip(
            "not a Riemanifold project: "@.len() as int,
        ) == e,
{
    let m = "not a Riemanifold project: "@ + e;
    assert(m.skip("not a Riemanifold project: "@.len() as int) =~= e);
}

} // verus!
