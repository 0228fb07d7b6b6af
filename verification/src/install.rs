//! Checking for, downloading and installing updates: what the release feed
//! says, which package may be installed, and where the stable copy lives.
use vstd::prelude::*;
use crate::json::{get_str, jget_str, json_parse, parse_json, JsonValue};
use crate::status::opt_view;
use crate::text::{
    ascii_lower_chars, ascii_lower_seq, chars_eq, chars_of, concat_str, extend_str, is_prefix,
    nat_text, string_from, trim, trim_str, u64_string,
};
use crate::update::{
    is_http, is_http_url, is_newer_version, newer_version_spec, normalize_release_version,
    normalize_update_source, release_version_spec, select_release_asset, selected_asset_spec,
    update_source_spec, UpdateSourceError,
};

verus! {

// ---------------------------------------------------------------------------
// Checking for an update
// ---------------------------------------------------------------------------

/// What a check for an update found.
pub struct UpdateInfoDto {
    pub current_version: String,
    pub source: String,
    pub latest_version: Option<String>,
    pub release_name: Option<String>,
    pub published_at: Option<String>,
    pub release_notes: Option<String>,
    pub download_url: Option<String>,
    pub release_page_url: Option<String>,
    pub has_update: bool,
    pub message: String,
}

pub struct UpdateInfoView {
    pub current_version: Seq<char>,
    pub source: Seq<char>,
    pub latest_version: Option<Seq<char>>,
    pub release_name: Option<Seq<char>>,
    pub published_at: Option<Seq<char>>,
    pub release_notes: Option<Seq<char>>,
    pub download_url: Option<Seq<char>>,
    pub release_page_url: Option<Seq<char>>,
    pub has_update: bool,
    pub message: Seq<char>,
}

pub open spec fn update_info_view(u: UpdateInfoDto) -> UpdateInfoView {
    UpdateInfoView {
        current_version: u.current_version@,
        source: u.source@,
        latest_version: opt_view(u.latest_version),
        release_name: opt_view(u.release_name),
        published_at: opt_view(u.published_at),
        release_notes: opt_view(u.release_notes),
        download_url: opt_view(u.download_url),
        release_page_url: opt_view(u.release_page_url),
        has_update: u.has_update,
        message: u.message@,
    }
}

/// Why a check for an update failed.
#[derive(PartialEq, Eq, Structural, Debug, Clone, Copy)]
pub enum UpdateCheckError {
    /// The update source is not one that can be checked.
    Source(UpdateSourceError),
    /// The reply is not JSON.
    InvalidReply,
    /// The reply names no release tag.
    MissingTag,
}

impl UpdateCheckError {
    /// The message shown to the user.
    pub fn message(&self) -> (r: String)
        ensures
            *self == UpdateCheckError::InvalidReply ==> r@ == "更新源响应不是有效的 JSON。"@,
            *self == UpdateCheckError::MissingTag ==> r@
                == "更新源响应中没有 tag_name，当前仅支持 GitHub Latest Release 格式。"@,
            self matches UpdateCheckError::Source(e) ==> (e == UpdateSourceError::Empty ==> r@
                == "更新源为空。"@),
    {
        match self {
            UpdateCheckError::Source(e) => e.message(),
            UpdateCheckError::InvalidReply => "更新源响应不是有效的 JSON。".to_string(),
            UpdateCheckError::MissingTag => "更新源响应中没有 tag_name，当前仅支持 GitHub Latest Release 格式。".to_string(),
        }
    }
}

/// The answer where no update source is configured.
pub open spec fn no_source_info(current_version: Seq<char>) -> UpdateInfoView {
    UpdateInfoView {
        current_version,
        source: Seq::empty(),
        latest_version: None,
        release_name: None,
        published_at: None,
        release_notes: None,
        download_url: None,
        release_page_url: None,
        has_update: false,
        message: "默认更新源为空，暂时无法检查更新。"@,
    }
}

/// Where a check asks: `None` where the source is blank (nothing to ask),
/// else the release API address of the trimmed source, or why it cannot be
/// asked.
pub open spec fn update_request_spec(source: Seq<char>) -> Option<Result<Seq<char>, UpdateSourceError>> {
    if trim(source).len() == 0 {
        None
    } else {
        Some(update_source_spec(trim(source)))
    }
}

pub fn update_request(source: &str) -> (r: Option<Result<String, UpdateSourceError>>)
    ensures
        match r {
            None => update_request_spec(source@) is None,
            Some(Ok(a)) => update_request_spec(source@) == Some(
                Ok::<Seq<char>, UpdateSourceError>(a@),
            ),
            Some(Err(e)) => update_request_spec(source@) == Some(
                Err::<Seq<char>, UpdateSourceError>(e),
            ),
        },
{
    let t = trim_str(source);
    if t.len() == 0 {
        return None;
    }
    let ts = string_from(&t);
    Some(normalize_update_source(ts.as_str()))
}

pub fn update_info_for_empty_source(current_version: &str) -> (r: UpdateInfoDto)
    ensures
        update_info_view(r) == no_source_info(current_version@),
{
    let r = UpdateInfoDto {
        current_version: current_version.to_string(),
        source: String::new(),
        latest_version: None,
        release_name: None,
        published_at: None,
        release_notes: None,
        download_url: None,
        release_page_url: None,
        has_update: false,
        message: "默认更新源为空，暂时无法检查更新。".to_string(),
    };
    assert(update_info_view(r) == no_source_info(current_version@));
    r
}

/// What a release document says about an update from `current_version`:
/// its version (from the tag), whether it is newer, the asset to download
/// and its descriptive members; or that it names no tag.
pub open spec fn release_info_spec(
    source: Seq<char>,
    current_version: Seq<char>,
    release: JsonValue,
) -> Result<UpdateInfoView, UpdateCheckError> {
    let tag = match jget_str(release, "tag_name"@) {
        Some(t) => t,
        None => Seq::empty(),
    };
    let latest = release_version_spec(tag);
    if latest.len() == 0 {
        Err(UpdateCheckError::MissingTag)
    } else {
        let has_update = newer_version_spec(latest, current_version);
        Ok(
            UpdateInfoView {
                current_version,
                source: trim(source),
                latest_version: Some(latest),
                release_name: jget_str(release, "name"@),
                published_at: jget_str(release, "published_at"@),
                release_notes: jget_str(release, "body"@),
                download_url: match selected_asset_spec(release) {
                    Some(a) => Some(a.1),
                    None => None,
                },
                release_page_url: jget_str(release, "html_url"@),
                has_update,
                message: if has_update {
                    "发现新版本 "@ + latest
                } else {
                    "当前已是最新版本 "@ + current_version
                },
            },
        )
    }
}

pub fn update_info_from_release(source: &str, current_version: &str, release: &JsonValue) -> (r:
    Result<UpdateInfoDto, UpdateCheckError>)
    ensures
        match r {
            Ok(u) => release_info_spec(source@, current_version@, *release) == Ok::<
                UpdateInfoView,
                UpdateCheckError,
            >(update_info_view(u)),
            Err(e) => release_info_spec(source@, current_version@, *release) == Err::<
                UpdateInfoView,
                UpdateCheckError,
            >(e),
        },
{
    let tag = match get_str(release, "tag_name") {
        Some(t) => t,
        None => String::new(),
    };
    let latest = normalize_release_version(tag.as_str());
    let lc = chars_of(latest.as_str());
    if lc.len() == 0 {
        return Err(UpdateCheckError::MissingTag);
    }
    let has_update = is_newer_version(latest.as_str(), current_version);
    let message = if has_update {
        concat_str("发现新版本 ", latest.as_str())
    } else {
        concat_str("当前已是最新版本 ", current_version)
    };
    let download_url = match select_release_asset(release) {
        Some(a) => Some(a.url),
        None => None,
    };
    let t = trim_str(source);
    let r = UpdateInfoDto {
        current_version: current_version.to_string(),
        source: string_from(&t),
        latest_version: Some(latest),
        release_name: get_str(release, "name"),
        published_at: get_str(release, "published_at"),
        release_notes: get_str(release, "body"),
        download_url,
        release_page_url: get_str(release, "html_url"),
        has_update,
        message,
    };
    Ok(r)
}

/// What the reply of a release feed says: its JSON document read as a
/// release, or that it is not JSON.
pub open spec fn reply_info_spec(source: Seq<char>, current_version: Seq<char>, body: Seq<char>) -> Result<
    UpdateInfoView,
    UpdateCheckError,
> {
    match json_parse(body) {
        Some(release) => release_info_spec(source, current_version, release),
        None => Err(UpdateCheckError::InvalidReply),
    }
}

/// Reads the reply of the release feed (its body text).
pub fn update_info_from_reply(source: &str, current_version: &str, body: &str) -> (r: Result<
    UpdateInfoDto,
    UpdateCheckError,
>)
    ensures
        match r {
            Ok(u) => reply_info_spec(source@, current_version@, body@) == Ok::<
                UpdateInfoView,
                UpdateCheckError,
            >(update_info_view(u)),
            Err(e) => reply_info_spec(source@, current_version@, body@) == Err::<
                UpdateInfoView,
                UpdateCheckError,
            >(e),
        },
{
    match parse_json(body) {
        Some(release) => update_info_from_release(source, current_version, &release),
        None => Err(UpdateCheckError::InvalidReply),
    }
}

// ---------------------------------------------------------------------------
// Downloading
// ---------------------------------------------------------------------------

/// What to download and, where known, which version it is.
pub struct DownloadUpdateInput {
    pub download_url: String,
    pub version: Option<String>,
}

/// Where a downloaded package was saved.
pub struct DownloadUpdateResultDto {
    pub path: String,
    pub file_name: String,
    pub size_bytes: u64,
}

/// The smallest package the tool accepts: 128 KiB.
pub const MIN_PACKAGE_BYTES: u64 = 131072;

/// Why a download or an installation was refused.
#[derive(PartialEq, Eq, Structural, Debug, Clone, Copy)]
pub enum PackageError {
    /// The download address is not http(s).
    NotHttp,
    /// Fewer bytes arrived than the server announced.
    Incomplete { downloaded: u64, total: u64 },
    /// The download is smaller than `MIN_PACKAGE_BYTES`.
    DownloadTooSmall,
    /// The package is not in the tool's update cache.
    OutsideCache,
    /// The package does not exist.
    Missing,
    /// The package is not an `.exe`.
    NotExe,
    /// The package is smaller than `MIN_PACKAGE_BYTES`.
    PackageTooSmall,
}

impl PackageError {
    /// The message shown to the user (`path` is the package's path where one
    /// is named).
    pub fn message(&self, path: &str) -> (r: String)
        ensures
            *self == PackageError::NotHttp ==> r@ == "下载地址必须是 http 或 https。"@,
            self matches PackageError::Incomplete { downloaded, total } ==> r@ == "下载大小不完整："@
                + nat_text(downloaded as nat) + "/"@ + nat_text(total as nat) + " bytes"@,
            *self == PackageError::DownloadTooSmall ==> r@ == "下载文件过小，已取消保存。"@,
            *self == PackageError::OutsideCache ==> r@ == "更新包必须位于本工具管理的更新缓存目录。"@,
            *self == PackageError::Missing ==> r@ == "更新包不存在："@ + path@,
            *self == PackageError::NotExe ==> r@ == "更新包必须是 exe 文件。"@,
            *self == PackageError::PackageTooSmall ==> r@ == "更新包过小，已取消安装。"@,
    {
        match self {
            PackageError::NotHttp => "下载地址必须是 http 或 https。".to_string(),
            PackageError::Incomplete { downloaded, total } => {
                let mut v = chars_of("下载大小不完整：");
                extend_str(&mut v, u64_string(*downloaded).as_str());
                extend_str(&mut v, "/");
                extend_str(&mut v, u64_string(*total).as_str());
                extend_str(&mut v, " bytes");
                string_from(&v)
            },
            PackageError::DownloadTooSmall => "下载文件过小，已取消保存。".to_string(),
            PackageError::OutsideCache => "更新包必须位于本工具管理的更新缓存目录。".to_string(),
            PackageError::Missing => concat_str("更新包不存在：", path),
            PackageError::NotExe => "更新包必须是 exe 文件。".to_string(),
            PackageError::PackageTooSmall => "更新包过小，已取消安装。".to_string(),
        }
    }
}

/// The address to download from: the trimmed address, where it is http(s).
pub fn download_address(download_url: &str) -> (r: Result<String, PackageError>)
    ensures
        is_http(trim(download_url@)) ==> (r matches Ok(a) && a@ == trim(download_url@)),
        !is_http(trim(download_url@)) ==> r == Err::<String, PackageError>(PackageError::NotHttp),
{
    let t = trim_str(download_url);
    let ts = string_from(&t);
    if is_http_url(ts.as_str()) {
        Ok(ts)
    } else {
        Err(PackageError::NotHttp)
    }
}

/// The name a download is written under until it is complete.
pub fn partial_download_name(file_name: &str) -> (r: String)
    ensures
        r@ == file_name@ + ".download"@,
{
    concat_str(file_name, ".download")
}

/// Whether a finished download is kept: all the announced bytes arrived,
/// and at least `MIN_PACKAGE_BYTES` of them.
pub open spec fn download_check_spec(downloaded: u64, total: Option<u64>) -> Result<(), PackageError> {
    match total {
        Some(t) if downloaded != t => Err(PackageError::Incomplete { downloaded, total: t }),
        _ => if downloaded < MIN_PACKAGE_BYTES {
            Err(PackageError::DownloadTooSmall)
        } else {
            Ok(())
        },
    }
}

pub fn check_download(downloaded: u64, total: Option<u64>) -> (r: Result<(), PackageError>)
    ensures
        r == download_check_spec(downloaded, total),
{
    if let Some(t) = total {
        if downloaded != t {
            return Err(PackageError::Incomplete { downloaded, total: t });
        }
    }
    if downloaded < MIN_PACKAGE_BYTES {
        return Err(PackageError::DownloadTooSmall);
    }
    Ok(())
}

// ---------------------------------------------------------------------------
// Installing
// ---------------------------------------------------------------------------

/// The package to install.
pub struct InstallDownloadedUpdateInput {
    pub package_path: String,
}

/// Where the updater was written and what it will replace.
pub struct InstallDownloadedUpdateResultDto {
    pub updater_script_path: String,
    pub stable_entry_path: String,
}

/// Whether the stable copy was (re)installed, and where it is.
pub struct InstallStableEntryResultDto {
    pub stable_entry_path: String,
    pub installed: bool,
}

/// Where the running program and the stable copy are.
pub struct UpdateRuntimeInfoDto {
    pub current_exe_path: String,
    pub stable_entry_path: String,
    pub stable_entry_exists: bool,
    pub is_stable_entry: bool,
}

/// Whether a package may be installed, checked in this order: it lies in
/// the update cache, it exists, its extension is `exe` in any case, and it
/// is at least `MIN_PACKAGE_BYTES` long.
pub open spec fn package_check_spec(
    inside_cache: bool,
    exists: bool,
    extension: Option<Seq<char>>,
    size_bytes: u64,
) -> Result<(), PackageError> {
    if !inside_cache {
        Err(PackageError::OutsideCache)
    } else if !exists {
        Err(PackageError::Missing)
    } else if !(extension matches Some(e) && ascii_lower_seq(e) == "exe"@) {
        Err(PackageError::NotExe)
    } else if size_bytes < MIN_PACKAGE_BYTES {
        Err(PackageError::PackageTooSmall)
    } else {
        Ok(())
    }
}

pub fn check_update_package(
    inside_cache: bool,
    exists: bool,
    extension: Option<&str>,
    size_bytes: u64,
) -> (r: Result<(), PackageError>)
    ensures
        r == package_check_spec(
            inside_cache,
            exists,
            match extension {
                Some(e) => Some(e@),
                None => None,
            },
            size_bytes,
        ),
{
    if !inside_cache {
        return Err(PackageError::OutsideCache);
    }
    if !exists {
        return Err(PackageError::Missing);
    }
    let is_exe = match extension {
        Some(e) => {
            let lower = ascii_lower_chars(&chars_of(e));
            chars_eq(&lower, &chars_of("exe"))
        },
        None => false,
    };
    if !is_exe {
        return Err(PackageError::NotExe);
    }
    if size_bytes < MIN_PACKAGE_BYTES {
        return Err(PackageError::PackageTooSmall);
    }
    Ok(())
}

/// Whether a program file is large enough to be copied or kept.
pub fn is_large_enough(size_bytes: u64) -> (r: bool)
    ensures
        r == (size_bytes >= MIN_PACKAGE_BYTES),
{
    size_bytes >= MIN_PACKAGE_BYTES
}

/// The address of a release page the tool may open: trimmed, http(s) only.
pub fn release_page_target(url: &str) -> (r: Option<String>)
    ensures
        is_http(trim(url@)) ==> (r matches Some(a) && a@ == trim(url@)),
        !is_http(trim(url@)) ==> r is None,
{
    let t = trim_str(url);
    let ts = string_from(&t);
    if is_http_url(ts.as_str()) {
        Some(ts)
    } else {
        None
    }
}

// ---------------------------------------------------------------------------
// The updater and the desktop shortcut
// ---------------------------------------------------------------------------

/// The PowerShell script that waits for the running program to exit, puts
/// the downloaded package in place of the stable copy (keeping the previous
/// copy until the move succeeds), writes the marker and starts the program.
pub const UPDATER_SCRIPT: &'static str = r#"
param(
    [Parameter(Mandatory = $true)][string]$Source,
    [Parameter(Mandatory = $true)][string]$Target,
    [Parameter(Mandatory = $true)][int]$CurrentPid,
    [Parameter(Mandatory = $true)][string]$Marker
)

$ErrorActionPreference = "Stop"
$TargetDir = Split-Path -Parent $Target
$LogPath = Join-Path $TargetDir "update-last.log"

function Write-UpdateLog {
    param([string]$Message)
    New-Item -ItemType Directory -Force -Path $TargetDir | Out-Null
    Add-Content -LiteralPath $LogPath -Value ("{0} {1}" -f (Get-Date -Format "yyyy-MM-dd HH:mm:ss"), $Message) -Encoding UTF8
}

try {
    Write-UpdateLog "start source=$Source target=$Target pid=$CurrentPid"
    if (-not (Test-Path -LiteralPath $Source)) {
        throw "Source package not found: $Source"
    }
    New-Item -ItemType Directory -Force -Path $TargetDir | Out-Null

    for ($i = 0; $i -lt 60; $i++) {
        $process = Get-Process -Id $CurrentPid -ErrorAction SilentlyContinue
        if (-not $process) {
            break
        }
        Start-Sleep -Milliseconds 500
    }

    $process = Get-Process -Id $CurrentPid -ErrorAction SilentlyContinue
    if ($process) {
        Stop-Process -Id $CurrentPid -Force
        Start-Sleep -Milliseconds 500
    }

    $TempPath = "$Target.copying"
    $BackupPath = "$Target.previous"
    if (Test-Path -LiteralPath $TempPath) {
        Remove-Item -LiteralPath $TempPath -Force
    }

    $copied = $false
    for ($i = 0; $i -lt 10; $i++) {
        try {
            Copy-Item -LiteralPath $Source -Destination $TempPath -Force
            $copied = $true
            break
        } catch {
            Start-Sleep -Milliseconds 500
        }
    }
    if (-not $copied) {
        throw "Failed to copy update package to temp path."
    }
    if ((Get-Item -LiteralPath $TempPath).Length -lt 131072) {
        throw "Temp update file is too small."
    }

    if (Test-Path -LiteralPath $BackupPath) {
        Remove-Item -LiteralPath $BackupPath -Force
    }
    if (Test-Path -LiteralPath $Target) {
        Move-Item -LiteralPath $Target -Destination $BackupPath -Force
    }

    try {
        Move-Item -LiteralPath $TempPath -Destination $Target -Force
    } catch {
        if ((Test-Path -LiteralPath $BackupPath) -and -not (Test-Path -LiteralPath $Target)) {
            Move-Item -LiteralPath $BackupPath -Destination $Target -Force
        }
        throw
    }

    Set-Content -LiteralPath $Marker -Value ("updated_at={0}`npath={1}" -f (Get-Date -Format "o"), $Target) -Encoding UTF8
    Write-UpdateLog "success"
    Start-Process -FilePath $Target -WorkingDirectory $TargetDir
    exit 0
} catch {
    Write-UpdateLog ("failed " + $_.Exception.Message)
    if (Test-Path -LiteralPath $Target) {
        Start-Process -FilePath $Target -WorkingDirectory $TargetDir
    }
    exit 1
}
"#;

pub fn updater_script() -> (r: &'static str)
    ensures
        r@ == UPDATER_SCRIPT@,
{
    UPDATER_SCRIPT
}

/// A value for a single-quoted PowerShell string: `'` doubled.
pub open spec fn ps_quoted(v: Seq<char>) -> Seq<char>
    decreases v.len(),
{
    if v.len() == 0 {
        Seq::empty()
    } else if v.last() == '\'' {
        ps_quoted(v.drop_last()).push('\'').push('\'')
    } else {
        ps_quoted(v.drop_last()).push(v.last())
    }
}

fn ps_quote(v: &str) -> (r: Vec<char>)
    ensures
        r@ == ps_quoted(v@),
{
    let cs = chars_of(v);
    let mut out: Vec<char> = Vec::new();
    let mut i: usize = 0;
    while i < cs.len()
        invariant
            i <= cs.len(),
            out@ == ps_quoted(cs@.take(i as int)),
        decreases cs.len() - i,
    {
        assert(cs@.take(i + 1).drop_last() == cs@.take(i as int));
        assert(cs@.take(i + 1).last() == cs@[i as int]);
        if cs[i] == '\'' {
            out.push('\'');
            out.push('\'');
        } else {
            out.push(cs[i]);
        }
        i = i + 1;
    }
    assert(cs@.take(cs.len() as int) == cs@);
    out
}

/// The PowerShell command that puts a `Codex Token Usage` shortcut to
/// `target` on the desktop, starting in `working_directory`.
pub open spec fn shortcut_script_spec(target: Seq<char>, working_directory: Seq<char>) -> Seq<char> {
    let t = ps_quoted(target);
    let w = ps_quoted(working_directory);
    "$desktop = [Environment]::GetFolderPath([Environment+SpecialFolder]::DesktopDirectory); New-Item -ItemType Directory -Force -Path $desktop | Out-Null; $shortcutPath = Join-Path $desktop 'Codex Token Usage.lnk'; $shell = New-Object -ComObject WScript.Shell; $shortcut = $shell.CreateShortcut($shortcutPath); $shortcut.TargetPath = '"@
        + t + "'; $shortcut.WorkingDirectory = '"@ + w + "'; $shortcut.IconLocation = '"@ + t
        + ",0'; $shortcut.Description = 'Codex Token Usage'; $shortcut.Save()"@
}

pub fn desktop_shortcut_script(target: &str, working_directory: &str) -> (r: String)
    ensures
        r@ == shortcut_script_spec(target@, working_directory@),
{
    let t = ps_quote(target);
    let w = ps_quote(working_directory);
    let mut v = chars_of(
        "$desktop = [Environment]::GetFolderPath([Environment+SpecialFolder]::DesktopDirectory); New-Item -ItemType Directory -Force -Path $desktop | Out-Null; $shortcutPath = Join-Path $desktop 'Codex Token Usage.lnk'; $shell = New-Object -ComObject WScript.Shell; $shortcut = $shell.CreateShortcut($shortcutPath); $shortcut.TargetPath = '",
    );
    crate::text::extend_chars(&mut v, &t);
    extend_str(&mut v, "'; $shortcut.WorkingDirectory = '");
    crate::text::extend_chars(&mut v, &w);
    extend_str(&mut v, "'; $shortcut.IconLocation = '");
    crate::text::extend_chars(&mut v, &t);
    extend_str(&mut v, ",0'; $shortcut.Description = 'Codex Token Usage'; $shortcut.Save()");
    string_from(&v)
}

} // verus!
