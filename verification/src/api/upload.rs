//! Uploads: a project is checked, stored under the digest of its bytes, and extracted.
use crate::assets::{asset_root, asset_root_of, law_asset_root};
use crate::error::{ApiError, ApiErrorView};
use crate::models::task::UploadResponse;
use crate::outside::{
    archive_entries, count_entries, format_id, fresh_id, hex_lower, id_text, lemma_hex_lower,
    media_parts, parse_media, sha1_digest, sha1_of,
};
use crate::path::{join_path, law_joined_on_unix, path_joined, System};
use crate::state::{AppState, StateView};
use crate::text::{
    ascii_lower, ascii_lower_all, ends_with_ignoring_case, hex_digit, is_hex_digit, opt_str,
    same_ignoring_case, to_chars,
};
use crate::utils::{json_response, ApiResponse, Reply};
use crate::worker::execute::plus;
use vstd::prelude::*;

verus! {

/// An upload has at most this many bytes.
pub const MAX_UPLOAD: usize = 104_857_600;

// ---------------------------------------------------------------------------
// Checks
// ---------------------------------------------------------------------------
/// A file name with the extension of projects, in small or capital letters.
pub open spec fn is_project_name(name: Seq<char>) -> bool {
    ascii_lower_all(".tsp"@).is_suffix_of(ascii_lower_all(name))
}

/// A media type that projects come with: a ZIP archive, or just bytes.
pub open spec fn is_project_media(kind: Seq<char>, subtype: Seq<char>) -> bool {
    &&& ascii_lower_all(kind) == ascii_lower_all("application"@)
    &&& (ascii_lower_all(subtype) == ascii_lower_all("zip"@) || ascii_lower_all(subtype)
        == ascii_lower_all("x-zip-compressed"@) || ascii_lower_all(subtype) == ascii_lower_all(
        "octet-stream"@,
    ))
}

/// A media type that was not given, or cannot be read, is not held against an upload.
pub open spec fn media_accepted(parts: Option<(Seq<char>, Seq<char>)>) -> bool {
    match parts {
        Some(p) => is_project_media(p.0, p.1),
        None => true,
    }
}

/// Whether the type and subtype of an upload are those of a project.
pub fn accepts_media(kind: &str, subtype: &str) -> (r: bool)
    ensures
        r == is_project_media(kind@, subtype@),
{
    same_ignoring_case(kind, "application") && (same_ignoring_case(subtype, "zip")
        || same_ignoring_case(subtype, "x-zip-compressed") || same_ignoring_case(
        subtype,
        "octet-stream",
    ))
}

/// The name of an uploaded file; one that is not given is unknown.
pub open spec fn given_name(filename: Option<Seq<char>>) -> Seq<char> {
    match filename {
        Some(name) => name,
        None => "unknown"@,
    }
}

pub open spec fn given_media(content_type: Option<Seq<char>>) -> Option<(Seq<char>, Seq<char>)> {
    match content_type {
        Some(t) => media_parts(t),
        None => None,
    }
}

/// What is wrong with the head of an uploaded field.
pub open spec fn field_error(
    has_disposition: bool,
    filename: Option<Seq<char>>,
    parts: Option<(Seq<char>, Seq<char>)>,
) -> Option<ApiErrorView> {
    if !has_disposition {
        Some(ApiErrorView::BadRequest("Missing Content-Disposition"@))
    } else if !is_project_name(given_name(filename)) {
        Some(
            ApiErrorView::UploadError("Invalid file extension. Only .tsp files are allowed."@),
        )
    } else if !media_accepted(parts) {
        Some(
            ApiErrorView::UploadError("Invalid file type. Only .tsp (zip) files are allowed."@),
        )
    } else {
        None
    }
}

/// Checks the head of an uploaded field: its file name and its media type, if it has one.
pub fn check_field(
    has_disposition: bool,
    filename: Option<&str>,
    content_type: Option<&str>,
) -> (r: Result<(), ApiError>)
    ensures
        match r {
            Ok(_) => field_error(
                has_disposition,
                opt_str(filename),
                given_media(opt_str(content_type)),
            ) is None,
            Err(e) => field_error(
                has_disposition,
                opt_str(filename),
                given_media(opt_str(content_type)),
            ) == Some(e@),
        },
{
    if !has_disposition {
        return Err(ApiError::bad_request("Missing Content-Disposition"));
    }
    let name: &str = match filename {
        Some(n) => n,
        None => "unknown",
    };
    if !ends_with_ignoring_case(name, ".tsp") {
        return Err(
            ApiError::upload("Invalid file extension. Only .tsp files are allowed."),
        );
    }
    if let Some(text) = content_type {
        if let Some((kind, subtype)) = parse_media(text) {
            if !accepts_media(kind.as_str(), subtype.as_str()) {
                return Err(
                    ApiError::upload("Invalid file type. Only .tsp (zip) files are allowed."),
                );
            }
        }
    }
    Ok(())
}

/// An archive that can be read and has an entry.
pub open spec fn is_project_archive(entries: Option<usize>) -> bool {
    match entries {
        Some(n) => n > 0,
        None => false,
    }
}

/// Whether an archive with so many entries, or none that can be read, is a project.
pub fn accepts_archive(entries: Option<usize>) -> (r: bool)
    ensures
        r == is_project_archive(entries),
        entries is None || entries == Some(0usize) ==> !r,
        forall|n: usize| n >= 1 && entries == Some(n) ==> r,
{
    match entries {
        Some(n) => n > 0,
        None => false,
    }
}

// ---------------------------------------------------------------------------
// Identifiers of files
// ---------------------------------------------------------------------------
/// Bytes as small hexadecimal digits.
pub open spec fn hex_text(bytes: Seq<u8>) -> Seq<char> {
    Seq::new(
        2 * bytes.len(),
        |i: int|
            if i % 2 == 0 {
                hex_lower(bytes[i / 2] as int / 16)
            } else {
                hex_lower(bytes[i / 2] as int % 16)
            },
    )
}

/// The form of the identifier of a file: 40 hexadecimal digits.
pub open spec fn is_file_id(id: Seq<char>) -> bool {
    id.len() == 40 && forall|i: int| 0 <= i < id.len() ==> is_hex_digit(#[trigger] id[i])
}

fn nibble(d: u8) -> (r: char)
    requires
        d < 16,
    ensures
        r == hex_lower(d as int),
{
    if d < 10 {
        (48 + d) as char
    } else {
        (87 + d) as char
    }
}

/// Bytes as small hexadecimal digits.
pub fn digest_text(bytes: &Vec<u8>) -> (r: String)
    ensures
        r@ == hex_text(bytes@),
{
    let mut r = String::new();
    let mut i: usize = 0;
    while i < bytes.len()
        invariant
            i <= bytes.len(),
            r@ == hex_text(bytes@.take(i as int)),
        decreases bytes.len() - i,
    {
        let b = bytes[i];
        let ghost before = r@;
        r.push(nibble(b / 16));
        r.push(nibble(b % 16));
        assert(r@ =~= hex_text(bytes@.take(i + 1)));
        i += 1;
    }
    assert(bytes@.take(bytes@.len() as int) =~= bytes@);
    r
}

proof fn lemma_hex_text(bytes: Seq<u8>)
    requires
        bytes.len() == 20,
    ensures
        is_file_id(hex_text(bytes)),
{
    let id = hex_text(bytes);
    assert forall|i: int| 0 <= i < id.len() implies is_hex_digit(#[trigger] id[i]) by {
        lemma_hex_lower(bytes[i / 2] as int / 16);
        lemma_hex_lower(bytes[i / 2] as int % 16);
    }
}

/// The identifier of a file: the SHA-1 digest of its bytes.
pub open spec fn file_id_of(data: Seq<u8>) -> Seq<char> {
    hex_text(sha1_digest(data))
}

/// The identifier of a file. It has the form that build requests ask for.
pub fn compute_file_id(data: &Vec<u8>) -> (r: String)
    ensures
        r@ == file_id_of(data@),
        is_file_id(r@),
{
    let digest = sha1_of(data);
    proof {
        lemma_hex_text(digest@);
    }
    digest_text(&digest)
}

/// Whether a text has the form of the identifier of a file.
pub fn has_file_id_form(id: &str) -> (r: bool)
    ensures
        r == is_file_id(id@),
{
    let chars = to_chars(id);
    if chars.len() != 40 {
        return false;
    }
    let mut i: usize = 0;
    while i < chars.len()
        invariant
            chars@ == id@,
            i <= chars.len(),
            forall|k: int| 0 <= k < i ==> is_hex_digit(#[trigger] id@[k]),
        decreases chars.len() - i,
    {
        if !hex_digit(chars[i]) {
            assert(!is_hex_digit(id@[i as int]));
            return false;
        }
        i += 1;
    }
    true
}

/// Where an uploaded file is stored.
pub open spec fn stored_path(upload_dir: Seq<char>, file_id: Seq<char>) -> Seq<char> {
    upload_dir + "/"@ + file_id + ".tsp"@
}

/// Where an uploaded project is extracted.
pub open spec fn extraction_path(upload_dir: Seq<char>, file_id: Seq<char>) -> Seq<char> {
    upload_dir + "/"@ + file_id + "_extracted"@
}

pub fn stored_file(upload_dir: &str, file_id: &str) -> (r: String)
    ensures
        r@ == stored_path(upload_dir@, file_id@),
{
    let mut r = plus(upload_dir, "/");
    r.append(file_id);
    r.append(".tsp");
    r
}

pub fn extraction_dir(upload_dir: &str, file_id: &str) -> (r: String)
    ensures
        r@ == extraction_path(upload_dir@, file_id@),
{
    let mut r = plus(upload_dir, "/");
    r.append(file_id);
    r.append("_extracted");
    r
}

// ---------------------------------------------------------------------------
// The upload
// ---------------------------------------------------------------------------
#[derive(Clone, Copy, Debug, PartialEq, Eq, Structural)]
pub enum UploadStage {
    /// No field has come yet.
    Waiting,
    /// The file that takes the bytes is to be made.
    Open,
    /// The bytes of the first field are coming.
    Receiving,
    /// The bytes that came are to be written.
    Write,
    /// The file is to be stored under the digest of its bytes.
    Save,
    /// The resources are to be put in place.
    Assets,
    /// The directory for the project is to be made.
    MakeDir,
    /// The project is to be extracted.
    Extract,
    /// The Android library is to be looked for.
    FindLibrary,
    /// The Android library is to be copied into the project.
    CopyLibrary,
    /// The upload is accepted.
    Done,
    /// The upload is refused.
    Refused,
}

#[derive(Debug)]
pub struct Upload {
    pub system: System,
    pub upload_dir: String,
    pub tiecc_dir: String,
    pub stage: UploadStage,
    pub data: Vec<u8>,
    /// How many of the bytes are in the file.
    pub written: usize,
    /// The file that takes the bytes.
    pub file: String,
    pub file_id: String,
    /// Why the upload is refused.
    pub error: ApiError,
    /// The file is to be removed.
    pub remove_file: bool,
    /// The extracted project is to be removed.
    pub remove_dir: bool,
}

pub struct UploadView {
    pub system: System,
    pub upload_dir: Seq<char>,
    pub tiecc_dir: Seq<char>,
    pub stage: UploadStage,
    pub data: Seq<u8>,
    pub written: int,
    pub file: Seq<char>,
    pub file_id: Seq<char>,
    pub error: ApiErrorView,
    pub remove_file: bool,
    pub remove_dir: bool,
}

impl View for Upload {
    type V = UploadView;

    open spec fn view(&self) -> UploadView {
        UploadView {
            system: self.system,
            upload_dir: self.upload_dir@,
            tiecc_dir: self.tiecc_dir@,
            stage: self.stage,
            data: self.data@,
            written: self.written as int,
            file: self.file@,
            file_id: self.file_id@,
            error: self.error@,
            remove_file: self.remove_file,
            remove_dir: self.remove_dir,
        }
    }
}

/// What has to be done at a stage.
#[derive(Debug)]
pub enum UploadAction {
    /// Get the next field of the request.
    NextField,
    /// Make an empty file.
    Open(String),
    /// Get the next bytes of the field.
    NextChunk,
    /// Write the bytes at the end of the file.
    Write(String, Vec<u8>),
    /// Move the first file to the second place.
    Save(String, String),
    /// Put the resources in place.
    Assets,
    /// Make a directory with those above it.
    MakeDir(String),
    /// Extract an archive into a directory.
    Extract(String, String),
    /// Tell whether there is a directory.
    Exists(String),
    /// Copy a directory with all that it holds.
    CopyDir(String, String),
    /// Answer the request.
    Done,
    /// Remove the file and the directory given, then answer the request with the error.
    Refuse(Option<String>, Option<String>),
}

impl UploadView {
    pub open spec fn at(self, stage: UploadStage) -> UploadView {
        UploadView { stage, ..self }
    }

    pub open spec fn refused(self, error: ApiErrorView, file: bool, dir: bool) -> UploadView {
        UploadView {
            stage: UploadStage::Refused,
            error,
            remove_file: file,
            remove_dir: dir,
            ..self
        }
    }

    /// The upload after an action was carried out, or answered with yes; or not.
    pub open spec fn after(self, yes: bool) -> UploadView {
        match self.stage {
            UploadStage::Open => if yes {
                self.at(UploadStage::Receiving)
            } else {
                self.refused(ApiErrorView::InternalServerError, false, false)
            },
            UploadStage::Write => if yes {
                UploadView {
                    stage: UploadStage::Receiving,
                    written: self.data.len() as int,
                    ..self
                }
            } else {
                self.refused(ApiErrorView::InternalServerError, false, false)
            },
            UploadStage::Save => if !yes {
                self.refused(ApiErrorView::InternalServerError, false, false)
            } else if !is_project_archive(archive_entries(self.data)) {
                self.stored().refused(
                    ApiErrorView::UploadError("Corrupted or invalid ZIP file."@),
                    true,
                    false,
                )
            } else {
                self.stored().at(UploadStage::Assets)
            },
            UploadStage::Assets => if yes {
                self.at(UploadStage::MakeDir)
            } else {
                self.refused(ApiErrorView::InternalServerError, false, false)
            },
            UploadStage::MakeDir => if yes {
                self.at(UploadStage::Extract)
            } else {
                self.refused(ApiErrorView::InternalServerError, true, false)
            },
            UploadStage::Extract => if yes {
                self.at(UploadStage::FindLibrary)
            } else {
                self.refused(
                    ApiErrorView::UploadError("Failed to extract ZIP file."@),
                    true,
                    true,
                )
            },
            UploadStage::FindLibrary => if yes {
                self.at(UploadStage::CopyLibrary)
            } else {
                self.at(UploadStage::Done)
            },
            UploadStage::CopyLibrary => self.at(UploadStage::Done),
            _ => self,
        }
    }

    /// The upload after more bytes of the field have come.
    pub open spec fn given(self, bytes: Seq<u8>) -> UploadView {
        if self.data.len() + bytes.len() > MAX_UPLOAD {
            self.refused(ApiErrorView::UploadError("File too large. Max 100MB."@), true, false)
        } else {
            UploadView { stage: UploadStage::Write, data: self.data + bytes, ..self }
        }
    }

    /// The upload after its file was stored under the digest of its bytes.
    pub open spec fn stored(self) -> UploadView {
        UploadView { file: stored_path(self.upload_dir, self.file_id), ..self }
    }

    /// The extracted project.
    pub open spec fn dir(self) -> Seq<char> {
        extraction_path(self.upload_dir, self.file_id)
    }

    /// The stages at which the whole file is there.
    pub open spec fn complete(self) -> bool {
        !(self.stage is Waiting || self.stage is Open || self.stage is Receiving
            || self.stage is Write || self.stage is Refused)
    }

    pub open spec fn sized(self) -> bool {
        self.data.len() <= MAX_UPLOAD && 0 <= self.written <= self.data.len()
    }

    /// What is known of an upload at its stage, from its start on.
    pub open spec fn wf(self) -> bool {
        &&& self.sized()
        &&& self.stage is Waiting || self.stage is Open ==> self.data.len() == 0
        &&& self.stage is Receiving || self.complete() ==> self.written == self.data.len()
        &&& self.complete() ==> self.file_id == file_id_of(self.data) && is_file_id(self.file_id)
        &&& self.complete() && !(self.stage is Save) ==> is_project_archive(
            archive_entries(self.data),
        ) && self.file == stored_path(self.upload_dir, self.file_id)
    }
}

impl UploadAction {
    /// What has to be done for an upload.
    pub open spec fn is_for(&self, u: UploadView) -> bool {
        match u.stage {
            UploadStage::Waiting => self is NextField,
            UploadStage::Open => self matches UploadAction::Open(p) && p@ == u.file,
            UploadStage::Receiving => self is NextChunk,
            UploadStage::Write => self matches UploadAction::Write(p, b) && p@ == u.file && b@
                == u.data.skip(u.written),
            UploadStage::Save => self matches UploadAction::Save(p, q) && p@ == u.file && q@
                == stored_path(u.upload_dir, u.file_id),
            UploadStage::Assets => self is Assets,
            UploadStage::MakeDir => self matches UploadAction::MakeDir(p) && p@ == u.dir(),
            UploadStage::Extract => self matches UploadAction::Extract(p, q) && p@ == u.file
                && q@ == u.dir(),
            UploadStage::FindLibrary => self matches UploadAction::Exists(p) && p@
                == library_path(u.system, u.tiecc_dir),
            UploadStage::CopyLibrary => self matches UploadAction::CopyDir(p, q) && p@
                == library_path(u.system, u.tiecc_dir) && q@ == library_copy(u.system, u.dir()),
            UploadStage::Done => self is Done,
            UploadStage::Refused => self matches UploadAction::Refuse(p, q) && (match p {
                Some(file) => u.remove_file && file@ == u.file,
                None => !u.remove_file,
            }) && (match q {
                Some(dir) => u.remove_dir && dir@ == u.dir(),
                None => !u.remove_dir,
            }),
        }
    }
}

/// The Android library that is kept for projects.
pub open spec fn library_path(system: System, tiecc_dir: Seq<char>) -> Seq<char> {
    path_joined(system, asset_root_of(system, tiecc_dir), "安卓基本库"@)
}

/// Where the Android library is copied to in a project.
pub open spec fn library_copy(system: System, dir: Seq<char>) -> Seq<char> {
    path_joined(system, path_joined(system, dir, "绳包"@), "安卓基本库"@)
}

fn kept_library(system: System, tiecc_dir: &str) -> (r: String)
    ensures
        r@ == library_path(system, tiecc_dir@),
{
    let root = asset_root(system, tiecc_dir);
    join_path(system, root.as_str(), "安卓基本库")
}

fn bytes_from(data: &Vec<u8>, from: usize) -> (r: Vec<u8>)
    requires
        from <= data.len(),
    ensures
        r@ == data@.skip(from as int),
{
    let mut r: Vec<u8> = Vec::new();
    let mut i: usize = from;
    while i < data.len()
        invariant
            from <= i <= data.len(),
            r@ == data@.subrange(from as int, i as int),
        decreases data.len() - i,
    {
        r.push(data[i]);
        assert(r@ =~= data@.subrange(from as int, i + 1));
        i += 1;
    }
    assert(r@ =~= data@.skip(from as int));
    r
}

/// Starts an upload whose bytes go to a file with a name of its own.
pub fn upload_file(state: &AppState) -> (r: Upload)
    ensures
        exists|part: u128| r@ == #[trigger] fresh_upload(state@, part),
        r@.wf(),
        r@.sized(),
{
    let part = fresh_id();
    upload_to(state, part)
}

/// An upload that is about to start, whose bytes go to a file named after `part`.
pub open spec fn fresh_upload(s: StateView, part: u128) -> UploadView {
    UploadView {
        system: s.system,
        upload_dir: s.upload_dir,
        tiecc_dir: s.tiecc_dir,
        stage: UploadStage::Waiting,
        data: Seq::empty(),
        written: 0,
        file: stored_path(s.upload_dir, id_text(part)),
        file_id: Seq::empty(),
        error: ApiErrorView::InternalServerError,
        remove_file: false,
        remove_dir: false,
    }
}

/// Starts an upload whose bytes go to a file named after `part`.
pub fn upload_to(state: &AppState, part: u128) -> (r: Upload)
    ensures
        r@ == fresh_upload(state@, part),
        r@.wf(),
        r@.sized(),
{
    let name = format_id(part);
    Upload {
        system: state.system,
        upload_dir: state.upload_dir.clone(),
        tiecc_dir: state.tiecc_dir.clone(),
        stage: UploadStage::Waiting,
        data: Vec::new(),
        written: 0,
        file: stored_file(state.upload_dir.as_str(), name.as_str()),
        file_id: String::new(),
        error: ApiError::InternalServerError,
        remove_file: false,
        remove_dir: false,
    }
}

impl Upload {
    fn refuse(&mut self, error: ApiError, file: bool, dir: bool)
        ensures
            final(self)@ == old(self)@.refused(error@, file, dir),
    {
        self.stage = UploadStage::Refused;
        self.error = error;
        self.remove_file = file;
        self.remove_dir = dir;
    }

    /// What has to be done next.
    pub fn next(&self) -> (r: UploadAction)
        requires
            self@.sized(),
        ensures
            r.is_for(self@),
    {
        let file = self.file.clone();
        let dir = extraction_dir(self.upload_dir.as_str(), self.file_id.as_str());
        match self.stage {
            UploadStage::Waiting => UploadAction::NextField,
            UploadStage::Open => UploadAction::Open(file),
            UploadStage::Receiving => UploadAction::NextChunk,
            UploadStage::Write => UploadAction::Write(file, bytes_from(&self.data, self.written)),
            UploadStage::Save => UploadAction::Save(
                file,
                stored_file(self.upload_dir.as_str(), self.file_id.as_str()),
            ),
            UploadStage::Assets => UploadAction::Assets,
            UploadStage::MakeDir => UploadAction::MakeDir(dir),
            UploadStage::Extract => UploadAction::Extract(file, dir),
            UploadStage::FindLibrary => UploadAction::Exists(
                kept_library(self.system, self.tiecc_dir.as_str()),
            ),
            UploadStage::CopyLibrary => {
                let ropes = join_path(self.system, dir.as_str(), "绳包");
                UploadAction::CopyDir(
                    kept_library(self.system, self.tiecc_dir.as_str()),
                    join_path(self.system, ropes.as_str(), "安卓基本库"),
                )
            },
            UploadStage::Done => UploadAction::Done,
            UploadStage::Refused => UploadAction::Refuse(
                if self.remove_file {
                    Some(file)
                } else {
                    None
                },
                if self.remove_dir {
                    Some(dir)
                } else {
                    None
                },
            ),
        }
    }

    /// The first field has come. Fields after it are not looked at.
    pub fn field(
        &mut self,
        has_disposition: bool,
        filename: Option<&str>,
        content_type: Option<&str>,
    )
        requires
            old(self)@.sized(),
            old(self)@.stage is Waiting,
        ensures
            final(self)@.sized(),
            old(self)@.wf() ==> final(self)@.wf(),
            final(self)@ == match field_error(
                has_disposition,
                opt_str(filename),
                given_media(opt_str(content_type)),
            ) {
                Some(e) => old(self)@.refused(e, false, false),
                None => old(self)@.at(UploadStage::Open),
            },
    {
        match check_field(has_disposition, filename, content_type) {
            Ok(_) => {
                self.stage = UploadStage::Open;
            },
            Err(e) => self.refuse(e, false, false),
        }
    }

    /// The request has no field, or none that can be read.
    pub fn no_field(&mut self)
        requires
            old(self)@.sized(),
            old(self)@.stage is Waiting,
        ensures
            final(self)@.sized(),
            old(self)@.wf() ==> final(self)@.wf(),
            final(self)@ == old(self)@.refused(
                ApiErrorView::BadRequest("No file uploaded"@),
                false,
                false,
            ),
    {
        self.refuse(ApiError::bad_request("No file uploaded"), false, false);
    }

    /// More bytes of the field have come.
    pub fn chunk(&mut self, bytes: &Vec<u8>)
        requires
            old(self)@.sized(),
            old(self)@.stage is Receiving,
        ensures
            final(self)@.sized(),
            old(self)@.wf() ==> final(self)@.wf(),
            final(self)@ == old(self)@.given(bytes@),
            final(self)@ == if old(self)@.data.len() + bytes@.len() > MAX_UPLOAD {
                old(self)@.refused(
                    ApiErrorView::UploadError("File too large. Max 100MB."@),
                    true,
                    false,
                )
            } else {
                UploadView {
                    stage: UploadStage::Write,
                    data: old(self)@.data + bytes@,
                    ..old(self)@
                }
            },
    {
        if bytes.len() > MAX_UPLOAD - self.data.len() {
            self.refuse(ApiError::upload("File too large. Max 100MB."), true, false);
            return;
        }
        let ghost before = self.data@;
        let mut i: usize = 0;
        while i < bytes.len()
            invariant
                i <= bytes.len(),
                self.data@ == before + bytes@.take(i as int),
                self@ == (UploadView { data: self.data@, ..old(self)@ }),
                before == old(self)@.data,
            decreases bytes.len() - i,
        {
            self.data.push(bytes[i]);
            assert(self.data@ =~= before + bytes@.take(i + 1));
            i += 1;
        }
        assert(bytes@.take(bytes@.len() as int) =~= bytes@);
        self.stage = UploadStage::Write;
    }

    /// The bytes of the field could not be received.
    pub fn transfer_failed(&mut self)
        requires
            old(self)@.sized(),
            old(self)@.stage is Receiving,
        ensures
            final(self)@.sized(),
            old(self)@.wf() ==> final(self)@.wf(),
            final(self)@ == old(self)@.refused(
                ApiErrorView::UploadError("Transfer error"@),
                false,
                false,
            ),
    {
        self.refuse(ApiError::upload("Transfer error"), false, false);
    }

    /// All bytes of the field have come.
    pub fn end_of_data(&mut self)
        requires
            old(self)@.sized(),
            old(self)@.stage is Receiving,
        ensures
            final(self)@.sized(),
            old(self)@.wf() ==> final(self)@.wf(),
            final(self)@ == (UploadView {
                stage: UploadStage::Save,
                file_id: file_id_of(old(self)@.data),
                ..old(self)@
            }),
    {
        self.file_id = compute_file_id(&self.data);
        self.stage = UploadStage::Save;
    }

    /// The action was carried out, or answered with yes; or not.
    pub fn receive(&mut self, yes: bool)
        requires
            old(self)@.sized(),
        ensures
            final(self)@.sized(),
            old(self)@.wf() ==> final(self)@.wf(),
            final(self)@ == old(self)@.after(yes),
    {
        match self.stage {
            UploadStage::Open => {
                if yes {
                    self.stage = UploadStage::Receiving;
                } else {
                    self.refuse(ApiError::InternalServerError, false, false);
                }
            },
            UploadStage::Write => {
                if yes {
                    self.written = self.data.len();
                    self.stage = UploadStage::Receiving;
                } else {
                    self.refuse(ApiError::InternalServerError, false, false);
                }
            },
            UploadStage::Save => {
                if !yes {
                    self.refuse(ApiError::InternalServerError, false, false);
                    return;
                }
                self.file = stored_file(self.upload_dir.as_str(), self.file_id.as_str());
                if !accepts_archive(count_entries(&self.data)) {
                    self.refuse(ApiError::upload("Corrupted or invalid ZIP file."), true, false);
                } else {
                    self.stage = UploadStage::Assets;
                }
            },
            UploadStage::Assets => {
                if yes {
                    self.stage = UploadStage::MakeDir;
                } else {
                    self.refuse(ApiError::InternalServerError, false, false);
                }
            },
            UploadStage::MakeDir => {
                if yes {
                    self.stage = UploadStage::Extract;
                } else {
                    self.refuse(ApiError::InternalServerError, true, false);
                }
            },
            UploadStage::Extract => {
                if yes {
                    self.stage = UploadStage::FindLibrary;
                } else {
                    self.refuse(ApiError::upload("Failed to extract ZIP file."), true, true);
                }
            },
            UploadStage::FindLibrary => {
                self.stage = if yes {
                    UploadStage::CopyLibrary
                } else {
                    UploadStage::Done
                };
            },
            UploadStage::CopyLibrary => {
                self.stage = UploadStage::Done;
            },
            _ => {},
        }
    }

    /// The answer to an upload that is over.
    pub fn answer(self) -> (r: Result<Reply<ApiResponse<UploadResponse>>, ApiError>)
        requires
            self@.stage is Done || self@.stage is Refused,
        ensures
            match r {
                Ok(reply) => {
                    &&& self@.stage is Done
                    &&& reply.json(200)
                    &&& reply.body.code == 200
                    &&& reply.body.data.file_id@ == self@.file_id
                },
                Err(e) => self@.stage is Refused && e@ == self@.error,
            },
    {
        match self.stage {
            UploadStage::Done => Ok(json_response(UploadResponse { file_id: self.file_id })),
            _ => Err(self.error),
        }
    }
}

/// An upload that is accepted is an archive with at least one entry and at most 100 MiB, and is
/// known by the SHA-1 digest of its bytes, in the form that build requests ask for.
pub proof fn law_accepted_upload(u: UploadView)
    requires
        u.wf(),
        u.stage is Done,
    ensures
        u.data.len() <= 100 * 1024 * 1024,
        is_project_archive(archive_entries(u.data)),
        u.file_id == file_id_of(u.data),
        is_file_id(u.file_id),
{
}

/// An upload whose bytes are an archive with any number of entries but none goes on once it is
/// saved. Where every later action succeeds, it is accepted, and known by the digest of its bytes.
pub proof fn law_archive_is_accepted(u: UploadView, n: usize, library: bool)
    requires
        u.wf(),
        u.stage is Save,
        archive_entries(u.data) == Some(n),
        n >= 1,
    ensures
        u.after(true).stage is Assets,
        ({
            let prepared = u.after(true).after(true).after(true).after(true);
            let done = if library {
                prepared.after(true).after(true)
            } else {
                prepared.after(false)
            };
            &&& prepared.stage is FindLibrary
            &&& done.stage is Done
            &&& done.wf()
            &&& done.data == u.data
            &&& done.file_id == hex_text(sha1_digest(u.data))
            &&& done.file == u.upload_dir + "/"@ + hex_text(sha1_digest(u.data)) + ".tsp"@
        }),
{
}

/// An upload that is saved is refused exactly where its bytes are no archive, or one without an
/// entry; its file is then removed, and nothing else.
pub proof fn law_no_archive_is_refused(u: UploadView)
    requires
        u.stage is Save,
    ensures
        u.after(true).stage is Refused <==> archive_entries(u.data) is None || archive_entries(
            u.data,
        ) == Some(0usize),
        u.after(true).stage is Refused ==> {
            &&& u.after(true).error == ApiErrorView::UploadError("Corrupted or invalid ZIP file."@)
            &&& u.after(true).remove_file
            &&& !u.after(true).remove_dir
            &&& u.after(true).file == stored_path(u.upload_dir, u.file_id)
        },
{
}

/// Bytes are added to those that came before, as long as all of them are no more than 100 MiB, and
/// written to the file; an upload with one byte more is refused, and its file removed.
pub proof fn law_upload_size(u: UploadView, bytes: Seq<u8>)
    requires
        u.stage is Receiving,
    ensures
        u.data.len() + bytes.len() <= 100 * 1024 * 1024 ==> u.given(bytes).stage is Write && u.given(
            bytes,
        ).data == u.data + bytes,
        u.data.len() + bytes.len() > 100 * 1024 * 1024 ==> u.given(bytes).stage is Refused && u.given(
            bytes,
        ).remove_file && u.given(bytes).error == ApiErrorView::UploadError(
            "File too large. Max 100MB."@,
        ),
        u.given(bytes).stage is Write ==> u.given(bytes).after(true).stage is Receiving && u.given(
            bytes,
        ).after(true).written == u.data.len() + bytes.len(),
{
}

/// What has to be done for an upload, in terms of where its file and its project go: both lie in
/// the upload directory under the identifier of the file.
pub proof fn law_places_of_an_upload(u: UploadView, a: UploadAction)
    requires
        u.wf(),
        a.is_for(u),
    ensures
        ({
            let file = u.upload_dir + "/"@ + u.file_id + ".tsp"@;
            let dir = u.upload_dir + "/"@ + u.file_id + "_extracted"@;
            &&& u.stage is Open ==> (a matches UploadAction::Open(p) && p@ == u.file)
            &&& u.stage is Write ==> (a matches UploadAction::Write(p, b) && p@ == u.file
                && u.data.take(u.written) + b@ == u.data)
            &&& u.stage is Save ==> (a matches UploadAction::Save(p, q) && p@ == u.file && q@
                == file)
            &&& u.stage is MakeDir ==> (a matches UploadAction::MakeDir(p) && p@ == dir)
            &&& u.stage is Extract ==> (a matches UploadAction::Extract(p, q) && p@ == file && q@
                == dir)
            &&& u.stage is CopyLibrary ==> (a matches UploadAction::CopyDir(p, q) && p@
                == library_path(u.system, u.tiecc_dir) && q@ == library_copy(u.system, dir))
            &&& u.stage is Done ==> a is Done
        }),
{
    assert(u.data.take(u.written) + u.data.skip(u.written) =~= u.data);
}

/// On Unix the Android library is kept beside the compilers, and copied to the directory `绳包` of
/// a project.
pub proof fn law_library_places(
    up: Seq<char>,
    base: Seq<char>,
    name: Seq<char>,
    dir: Seq<char>,
)
    requires
        up.len() > 0,
        base.len() > 0,
        !base.contains('/'),
        base != seq!['.'],
        name.len() > 0,
        !name.contains('/'),
        name != seq!['.'],
        dir.len() > 0,
        dir.last() != '/',
    ensures
        library_path(System::Unix, (up.push('/') + base).push('/') + name) == up.push('/') + base
            + seq!['/'] + "安卓基本库"@,
        library_copy(System::Unix, dir) == dir + seq!['/'] + "绳包"@ + seq!['/'] + "安卓基本库"@,
{
    reveal_strlit("安卓基本库");
    reveal_strlit("绳包");
    let root = up.push('/') + base;
    law_asset_root(up, base, name);
    if root.last() == '/' {
        assert(base[base.len() - 1] == '/');
        assert(base.contains('/'));
    }
    assert("安卓基本库"@[0] == '安' && "绳包"@[0] == '绳' && "绳包"@.last() == '包');
    law_joined_on_unix(root, "安卓基本库"@);
    law_joined_on_unix(dir, "绳包"@);
    law_joined_on_unix(dir + seq!['/'] + "绳包"@, "安卓基本库"@);
}

/// The media type of an upload is read from what the upload says, whatever that is.
pub proof fn law_media_as_given(text: Seq<char>)
    ensures
        given_media(Some(text)) == media_parts(text),
        given_media(None) is None,
        media_parts(text) is None ==> media_accepted(given_media(Some(text))),
        media_accepted(given_media(None)),
{
}

/// A file name is that of a project where it ends in `.tsp`, in small or capital letters, whatever
/// stands before that.
pub proof fn law_project_names(stem: Seq<char>, ending: Seq<char>)
    requires
        ending.len() == 4,
    ensures
        is_project_name(stem + ending) <==> {
            &&& ending[0] == '.'
            &&& ending[1] == 't' || ending[1] == 'T'
            &&& ending[2] == 's' || ending[2] == 'S'
            &&& ending[3] == 'p' || ending[3] == 'P'
        },
        field_error(true, Some(stem + ".tsp"@), None) is None,
        field_error(true, Some(stem + ".TSP"@), None) is None,
{
    reveal_strlit(".tsp");
    reveal_strlit(".TSP");
    let small = ascii_lower_all(".tsp"@);
    assert(small =~= ".tsp"@);
    let name = stem + ending;
    let low = ascii_lower_all(name);
    let end = low.subrange(low.len() - 4, low.len() as int);
    assert forall|i: int| 0 <= i < 4 implies end[i] == ascii_lower(#[trigger] ending[i]) by {}
    assert(end[0] == ascii_lower(ending[0]));
    assert(end[1] == ascii_lower(ending[1]));
    assert(end[2] == ascii_lower(ending[2]));
    assert(end[3] == ascii_lower(ending[3]));
    if is_project_name(name) {
        assert(end =~= small);
        assert(end[0] == small[0] && end[1] == small[1] && end[2] == small[2] && end[3]
            == small[3]);
    }
    if ending[0] == '.' && (ending[1] == 't' || ending[1] == 'T') && (ending[2] == 's' || ending[2]
        == 'S') && (ending[3] == 'p' || ending[3] == 'P') {
        assert(end =~= small);
    }
    lemma_written_ending(stem, ".tsp"@);
    lemma_written_ending(stem, ".TSP"@);
}

proof fn lemma_written_ending(stem: Seq<char>, ending: Seq<char>)
    requires
        ending == ".tsp"@ || ending == ".TSP"@,
    ensures
        is_project_name(stem + ending),
{
    reveal_strlit(".tsp");
    reveal_strlit(".TSP");
    let low = ascii_lower_all(stem + ending);
    let small = ascii_lower_all(".tsp"@);
    assert(low.subrange(low.len() - small.len(), low.len() as int) =~= small);
}

/// A name that is too short to end in `.tsp` is not that of a project; nor is a file that has none.
pub proof fn law_short_names_are_refused(name: Seq<char>, parts: Option<(Seq<char>, Seq<char>)>)
    requires
        name.len() < 4,
    ensures
        field_error(true, Some(name), parts) == Some(
            ApiErrorView::UploadError("Invalid file extension. Only .tsp files are allowed."@),
        ),
        field_error(true, None, parts) == Some(
            ApiErrorView::UploadError("Invalid file extension. Only .tsp files are allowed."@),
        ),
{
    reveal_strlit(".tsp");
    reveal_strlit("unknown");
    let small = ascii_lower_all(".tsp"@);
    let low = ascii_lower_all("unknown"@);
    if is_project_name("unknown"@) {
        assert(low.subrange(low.len() - 4, low.len() as int)[0] == small[0]);
    }
}

/// Of the media types that an upload can name, a ZIP archive, a compressed one and plain bytes are
/// accepted, in whatever letters they are written, and no other; one that is not named or cannot
/// be read is accepted.
pub proof fn law_accepted_media(name: Seq<char>, kind: Seq<char>, subtype: Seq<char>)
    requires
        field_error(true, Some(name), None) is None,
    ensures
        field_error(true, Some(name), Some((kind, subtype))) is None <==> {
            &&& ascii_lower_all(kind) == "application"@
            &&& ascii_lower_all(subtype) == "zip"@ || ascii_lower_all(subtype)
                == "x-zip-compressed"@ || ascii_lower_all(subtype) == "octet-stream"@
        },
        field_error(true, Some(name), Some((kind, subtype))) is Some ==> field_error(
            true,
            Some(name),
            Some((kind, subtype)),
        ) == Some(
            ApiErrorView::UploadError("Invalid file type. Only .tsp (zip) files are allowed."@),
        ),
{
    reveal_strlit("application");
    reveal_strlit("zip");
    reveal_strlit("x-zip-compressed");
    reveal_strlit("octet-stream");
    assert(ascii_lower_all("application"@) =~= "application"@);
    assert(ascii_lower_all("zip"@) =~= "zip"@);
    assert(ascii_lower_all("x-zip-compressed"@) =~= "x-zip-compressed"@);
    assert(ascii_lower_all("octet-stream"@) =~= "octet-stream"@);
}

/// A field without the header that names it is refused, whatever else it says.
pub proof fn law_unnamed_field_is_refused(
    filename: Option<Seq<char>>,
    parts: Option<(Seq<char>, Seq<char>)>,
)
    ensures
        field_error(false, filename, parts) == Some(
            ApiErrorView::BadRequest("Missing Content-Disposition"@),
        ),
{
}

/// An action that fails ends the upload, but for the search for the library and its copy, which do
/// not decide about it. A directory is removed only where a project was extracted into it, and a
/// file only once it was stored.
pub proof fn law_failed_action_ends_the_upload(u: UploadView)
    requires
        u.stage is Open || u.stage is Write || u.complete(),
        !(u.stage is Done),
    ensures
        u.after(false).stage is Refused <==> !(u.stage is FindLibrary || u.stage is CopyLibrary),
        u.stage is FindLibrary || u.stage is CopyLibrary ==> u.after(false).stage is Done,
        u.after(false).stage is Refused ==> {
            &&& u.after(false).error == if u.stage is Extract {
                ApiErrorView::UploadError("Failed to extract ZIP file."@)
            } else {
                ApiErrorView::InternalServerError
            }
            &&& u.after(false).remove_dir <==> u.stage is Extract
            &&& u.after(false).remove_file <==> u.stage is MakeDir || u.stage is Extract
        },
        u.after(false).data == u.data,
        u.after(false).file_id == u.file_id,
{
}

/// The identifier of a file has two digits for each byte of its digest, and can be told back from
/// them.
pub proof fn law_hex_text_read_back(a: Seq<u8>, b: Seq<u8>)
    ensures
        hex_text(a).len() == 2 * a.len(),
        hex_text(a) == hex_text(b) ==> a == b,
        forall|i: int| 0 <= i < hex_text(a).len() ==> '0' <= #[trigger] hex_text(a)[i] <= '9' || 'a'
            <= hex_text(a)[i] <= 'f',
{
    assert forall|i: int| 0 <= i < hex_text(a).len() implies '0' <= #[trigger] hex_text(a)[i] <= '9'
        || 'a' <= hex_text(a)[i] <= 'f' by {
        lemma_hex_lower(a[i / 2] as int / 16);
        lemma_hex_lower(a[i / 2] as int % 16);
    }
    if hex_text(a) == hex_text(b) {
        assert(hex_text(a).len() == hex_text(b).len());
        assert forall|i: int| 0 <= i < a.len() implies a[i] == b[i] by {
            let x = hex_text(a);
            let y = hex_text(b);
            assert(x[2 * i] == y[2 * i]);
            assert(x[2 * i + 1] == y[2 * i + 1]);
            assert((2 * i) % 2 == 0 && (2 * i) / 2 == i);
            assert((2 * i + 1) % 2 == 1 && (2 * i + 1) / 2 == i);
        }
        assert(a =~= b);
    }
}

/// A text of 40 hexadecimal digits, small or capital, is the identifier of a file; one with
/// another length or another character is not.
pub proof fn law_file_id_form(id: Seq<char>)
    ensures
        is_file_id(id) <==> id.len() == 40 && forall|i: int|
            0 <= i < id.len() ==> ('0' <= #[trigger] id[i] <= '9' || 'a' <= id[i] <= 'f' || 'A'
                <= id[i] <= 'F'),
{
    if id.len() == 40 && forall|i: int|
        0 <= i < id.len() ==> ('0' <= #[trigger] id[i] <= '9' || 'a' <= id[i] <= 'f' || 'A' <= id[i]
            <= 'F') {
        assert forall|i: int| 0 <= i < id.len() implies is_hex_digit(#[trigger] id[i]) by {}
    }
    if is_file_id(id) {
        assert forall|i: int| 0 <= i < id.len() implies ('0' <= #[trigger] id[i] <= '9' || 'a'
            <= id[i] <= 'f' || 'A' <= id[i] <= 'F') by {
            assert(is_hex_digit(id[i]));
        }
    }
}

/// The same bytes are known by the same identifier.
pub proof fn law_same_bytes_same_id(u: UploadView, v: UploadView)
    requires
        u.wf(),
        v.wf(),
        u.stage is Done,
        v.stage is Done,
        u.data == v.data,
    ensures
        u.file_id == v.file_id,
{
}

} // verus!
