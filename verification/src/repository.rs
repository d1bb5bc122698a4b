//! Devices, playlists and rigs as the server keeps them, and the shape of a rig's result.
use vstd::prelude::*;
use vstd::string::StringExecFns;

use crate::errors::{ServeError, NOT_FOUND};
use crate::schedule::Playlist;

verus! {

/// How a rig's result is returned.
#[derive(Debug, Clone, Copy, PartialEq, Eq, Structural)]
pub enum RigResultFormat {
    /// An image.
    Image,
    /// The JSON output of the rig.
    Json,
    /// An HTML page holding the image as a data URL (`html`).
    DataUrl,
    /// An HTML page holding a URL that generates the image (`html_js`).
    Url,
}

/// How an image result is encoded.
#[derive(Debug, Clone, Copy, PartialEq, Eq, Structural)]
pub enum RigResultImageFormat {
    Jpeg,
    Png,
    /// A one bit per pixel bitmap (`bmp_1bit`).
    Bmp1Bit,
}

impl Default for RigResultFormat {
    fn default() -> (r: Self)
        ensures
            r == RigResultFormat::Image,
    {
        RigResultFormat::Image
    }
}

impl Default for RigResultImageFormat {
    fn default() -> (r: Self)
        ensures
            r == RigResultImageFormat::Png,
    {
        RigResultImageFormat::Png
    }
}

/// The name of a result format as it appears in queries and configuration.
pub open spec fn format_name(f: RigResultFormat) -> Seq<char> {
    match f {
        RigResultFormat::Image => seq!['i', 'm', 'a', 'g', 'e'],
        RigResultFormat::Json => seq!['j', 's', 'o', 'n'],
        RigResultFormat::DataUrl => seq!['h', 't', 'm', 'l'],
        RigResultFormat::Url => seq!['h', 't', 'm', 'l', '_', 'j', 's'],
    }
}

/// The name of an image format as it appears in queries and configuration.
pub open spec fn image_format_name(f: RigResultImageFormat) -> Seq<char> {
    match f {
        RigResultImageFormat::Jpeg => seq!['j', 'p', 'e', 'g'],
        RigResultImageFormat::Png => seq!['p', 'n', 'g'],
        RigResultImageFormat::Bmp1Bit => seq!['b', 'm', 'p', '_', '1', 'b', 'i', 't'],
    }
}

impl RigResultFormat {
    /// The name of this format as it appears in queries and configuration.
    pub fn name(&self) -> (s: &'static str)
        ensures
            s@ == format_name(*self),
    {
        match self {
            RigResultFormat::Image => {
                proof {
                    reveal_strlit("image");
                }
                "image"
            },
            RigResultFormat::Json => {
                proof {
                    reveal_strlit("json");
                }
                "json"
            },
            RigResultFormat::DataUrl => {
                proof {
                    reveal_strlit("html");
                }
                "html"
            },
            RigResultFormat::Url => {
                proof {
                    reveal_strlit("html_js");
                }
                "html_js"
            },
        }
    }
}

impl RigResultImageFormat {
    /// The name of this image format as it appears in queries and configuration.
    pub fn name(&self) -> (s: &'static str)
        ensures
            s@ == image_format_name(*self),
    {
        match self {
            RigResultImageFormat::Jpeg => {
                proof {
                    reveal_strlit("jpeg");
                }
                "jpeg"
            },
            RigResultImageFormat::Png => {
                proof {
                    reveal_strlit("png");
                }
                "png"
            },
            RigResultImageFormat::Bmp1Bit => {
                proof {
                    reveal_strlit("bmp_1bit");
                }
                "bmp_1bit"
            },
        }
    }
}

/// The full shape of a rig's result.
#[derive(Debug, Clone, Copy, PartialEq, Eq, Structural)]
pub struct RigResultSpec {
    pub format: RigResultFormat,
    pub image_format: RigResultImageFormat,
    /// Clockwise rotation in degrees.
    pub rotate: u16,
}

impl Default for RigResultSpec {
    fn default() -> (r: Self)
        ensures
            r == (RigResultSpec {
                format: RigResultFormat::Image,
                image_format: RigResultImageFormat::Png,
                rotate: 0,
            }),
    {
        RigResultSpec { format: RigResultFormat::Image, image_format: RigResultImageFormat::Png, rotate: 0 }
    }
}

/// The result shape with every part optional; a missing part is taken from defaults.
#[derive(Debug, Clone, Copy, PartialEq, Eq, Structural)]
pub struct RigResultPartialSpec {
    pub format: Option<RigResultFormat>,
    pub image_format: Option<RigResultImageFormat>,
    pub rotate: Option<u16>,
}

impl Default for RigResultPartialSpec {
    fn default() -> (r: Self)
        ensures
            r == (RigResultPartialSpec { format: None, image_format: None, rotate: None }),
    {
        RigResultPartialSpec { format: None, image_format: None, rotate: None }
    }
}

/// Each part given, else the default's part.
pub open spec fn completed(
    format: Option<RigResultFormat>,
    image_format: Option<RigResultImageFormat>,
    rotate: Option<u16>,
    defaults: RigResultSpec,
) -> RigResultSpec {
    RigResultSpec {
        format: match format {
            Some(f) => f,
            None => defaults.format,
        },
        image_format: match image_format {
            Some(f) => f,
            None => defaults.image_format,
        },
        rotate: match rotate {
            Some(r) => r,
            None => defaults.rotate,
        },
    }
}

fn complete(
    format: Option<RigResultFormat>,
    image_format: Option<RigResultImageFormat>,
    rotate: Option<u16>,
    defaults: RigResultSpec,
) -> (r: RigResultSpec)
    ensures
        r == completed(format, image_format, rotate, defaults),
{
    RigResultSpec {
        format: match format {
            Some(f) => f,
            None => defaults.format,
        },
        image_format: match image_format {
            Some(f) => f,
            None => defaults.image_format,
        },
        rotate: match rotate {
            Some(r) => r,
            None => defaults.rotate,
        },
    }
}

impl RigResultPartialSpec {
    /// The full shape: each part given here, else the part of `defaults`.
    pub fn into_spec(self, defaults: RigResultSpec) -> (r: RigResultSpec)
        ensures
            r == completed(self.format, self.image_format, self.rotate, defaults),
    {
        complete(self.format, self.image_format, self.rotate, defaults)
    }
}

/// The result shape asked for in a request's query string.
#[derive(Debug, Clone, Copy, PartialEq, Eq, Structural)]
pub struct FormatQuery {
    pub format: Option<RigResultFormat>,
    pub image_format: Option<RigResultImageFormat>,
    pub rotate: Option<u16>,
}

impl FormatQuery {
    /// A query that asks for nothing.
    pub fn none() -> (q: FormatQuery)
        ensures
            q == (FormatQuery { format: None, image_format: None, rotate: None }),
    {
        FormatQuery { format: None, image_format: None, rotate: None }
    }

    /// The full shape, each missing part taken from the default shape.
    pub fn into_spec(self) -> (r: RigResultSpec)
        ensures
            r == completed(
                self.format,
                self.image_format,
                self.rotate,
                RigResultSpec {
                    format: RigResultFormat::Image,
                    image_format: RigResultImageFormat::Png,
                    rotate: 0,
                },
            ),
    {
        complete(self.format, self.image_format, self.rotate, RigResultSpec::default())
    }

    /// The full shape, each missing part taken from `defaults`.
    pub fn into_spec_with_defaults(self, defaults: RigResultSpec) -> (r: RigResultSpec)
        ensures
            r == completed(self.format, self.image_format, self.rotate, defaults),
    {
        complete(self.format, self.image_format, self.rotate, defaults)
    }
}

/// A physical or virtual device that calls the server.
#[derive(Debug, Clone)]
pub struct Device {
    /// The playlist the device shows.
    pub playlist: Option<String>,
    /// JSON text handed to the rig when it runs for this device.
    pub context: Option<String>,
    /// The device's own result shape.
    pub result_spec: RigResultPartialSpec,
}

/// A load that found nothing (a "not found" error) becomes `None`; other errors stay.
pub fn try_load<T>(maybe_result: Result<T, ServeError>) -> (r: Result<Option<T>, ServeError>)
    ensures
        match maybe_result {
            Ok(v) => r == Ok::<Option<T>, ServeError>(Some(v)),
            Err(e) => if e matches ServeError::UserFacing(code, _) && code == NOT_FOUND {
                r == Ok::<Option<T>, ServeError>(None)
            } else {
                r == Err::<Option<T>, ServeError>(e)
            },
        },
{
    match maybe_result {
        Ok(result) => Ok(Some(result)),
        Err(ServeError::UserFacing(code, message)) => {
            if code == NOT_FOUND {
                Ok(None)
            } else {
                Err(ServeError::UserFacing(code, message))
            }
        },
        Err(e) => Err(e),
    }
}

/// `base` joined with `part` as `PathBuf::push` does on Unix: an absolute `part`
/// replaces `base`; otherwise a `/` goes between them unless `base` is empty or
/// already ends with one.
pub open spec fn joined(base: Seq<char>, part: Seq<char>) -> Seq<char> {
    if part.len() > 0 && part[0] == '/' {
        part
    } else if base.len() == 0 || base.last() == '/' {
        base + part
    } else {
        base + seq!['/'] + part
    }
}

/// Joins two paths as `PathBuf::push` does on Unix.
pub fn join_path(base: &str, part: &str) -> (r: String)
    ensures
        r@ == joined(base@, part@),
{
    let part_chars = crate::text::chars_of(part);
    if part_chars.len() > 0 && part_chars[0] == '/' {
        return String::from_str(part);
    }
    let base_chars = crate::text::chars_of(base);
    let mut r = String::from_str(base);
    if base_chars.len() > 0 && base_chars[base_chars.len() - 1] != '/' {
        crate::text::push_char(&mut r, '/');
    }
    r.append(part);
    r
}

/// The folder of rig files.
pub const RIG_FOLDER_NAME: &'static str = "rigs";

/// The folder of playlist files.
pub const PLAYLIST_FOLDER_NAME: &'static str = "playlists";

/// The folder of device files.
pub const DEVICE_FOLDER_NAME: &'static str = "devices";

/// The folder of font files.
pub const FONTS_FOLDER_NAME: &'static str = "fonts";

/// The folder of rigs under a root.
pub fn get_rig_folder_path(root_path: &str) -> (r: String)
    ensures
        r@ == joined(root_path@, RIG_FOLDER_NAME@),
{
    join_path(root_path, RIG_FOLDER_NAME)
}

/// The folder of playlists under a root.
pub fn get_playlist_folder_path(root_path: &str) -> (r: String)
    ensures
        r@ == joined(root_path@, PLAYLIST_FOLDER_NAME@),
{
    join_path(root_path, PLAYLIST_FOLDER_NAME)
}

/// The folder of devices under a root.
pub fn get_device_folder_path(root_path: &str) -> (r: String)
    ensures
        r@ == joined(root_path@, DEVICE_FOLDER_NAME@),
{
    join_path(root_path, DEVICE_FOLDER_NAME)
}

/// The file name that holds an item: its name with a `.json` extension.
pub open spec fn json_file_name(name: Seq<char>) -> Seq<char> {
    name + seq!['.', 'j', 's', 'o', 'n']
}

fn json_file(name: &str) -> (r: String)
    ensures
        r@ == json_file_name(name@),
{
    let mut r = String::from_str(name);
    crate::text::push_char(&mut r, '.');
    crate::text::push_char(&mut r, 'j');
    crate::text::push_char(&mut r, 's');
    crate::text::push_char(&mut r, 'o');
    crate::text::push_char(&mut r, 'n');
    r
}

/// The file of the rig `name` under a root.
pub fn get_rig_path(root_path: &str, name: &str) -> (r: String)
    ensures
        r@ == joined(joined(root_path@, RIG_FOLDER_NAME@), json_file_name(name@)),
{
    let folder = get_rig_folder_path(root_path);
    join_path(folder.as_str(), json_file(name).as_str())
}

/// The file of the playlist `name` under a root.
pub fn get_playlist_path(root_path: &str, name: &str) -> (r: String)
    ensures
        r@ == joined(joined(root_path@, PLAYLIST_FOLDER_NAME@), json_file_name(name@)),
{
    let folder = get_playlist_folder_path(root_path);
    join_path(folder.as_str(), json_file(name).as_str())
}

/// The file of the device `name` under a root.
pub fn get_device_path(root_path: &str, name: &str) -> (r: String)
    ensures
        r@ == joined(joined(root_path@, DEVICE_FOLDER_NAME@), json_file_name(name@)),
{
    let folder = get_device_folder_path(root_path);
    join_path(folder.as_str(), json_file(name).as_str())
}

/// A repository of JSON files under a root folder.
#[derive(Debug, Clone)]
pub struct FileSystemRepository {
    pub root_path: String,
}

impl FileSystemRepository {
    /// A repository rooted at `root_path`.
    pub fn new(root_path: String) -> (r: FileSystemRepository)
        ensures
            r.root_path@ == root_path@,
    {
        FileSystemRepository { root_path }
    }

    /// The file that holds the rig `name`.
    pub fn rig_path(&self, name: &str) -> (r: String)
        ensures
            r@ == joined(joined(self.root_path@, RIG_FOLDER_NAME@), json_file_name(name@)),
    {
        get_rig_path(self.root_path.as_str(), name)
    }

    /// The file that holds the playlist `name`.
    pub fn playlist_path(&self, name: &str) -> (r: String)
        ensures
            r@ == joined(joined(self.root_path@, PLAYLIST_FOLDER_NAME@), json_file_name(name@)),
    {
        get_playlist_path(self.root_path.as_str(), name)
    }

    /// The file that holds the device `name`.
    pub fn device_path(&self, name: &str) -> (r: String)
        ensures
            r@ == joined(joined(self.root_path@, DEVICE_FOLDER_NAME@), json_file_name(name@)),
    {
        get_device_path(self.root_path.as_str(), name)
    }
}

/// Entry `k` is the first of `entries` named `name`.
pub open spec fn is_first_named<T>(entries: Seq<(String, T)>, name: Seq<char>, k: int) -> bool {
    &&& 0 <= k < entries.len()
    &&& entries[k].0@ == name
    &&& forall|j: int| 0 <= j < k ==> entries[j].0@ != name
}

/// Some entry is named `name`.
pub open spec fn has_named<T>(entries: Seq<(String, T)>, name: Seq<char>) -> bool {
    exists|k: int| 0 <= k < entries.len() && entries[k].0@ == name
}

/// The position of the first entry named `name`, if any.
pub fn find_named<T>(entries: &Vec<(String, T)>, name: &str) -> (r: Option<usize>)
    ensures
        match r {
            Some(k) => is_first_named(entries@, name@, k as int),
            None => !has_named(entries@, name@),
        },
{
    let wanted = String::from_str(name);
    let mut k: usize = 0;
    while k < entries.len()
        invariant
            k <= entries@.len(),
            wanted@ == name@,
            forall|j: int| 0 <= j < k ==> entries@[j].0@ != name@,
        decreases entries@.len() - k,
    {
        if entries[k].0 == wanted {
            return Some(k);
        }
        k = k + 1;
    }
    None
}

/// A "not found" error whose message is `prefix` followed by `name`.
pub open spec fn is_not_found(e: ServeError, prefix: Seq<char>, name: Seq<char>) -> bool {
    e matches ServeError::UserFacing(code, m) && code == NOT_FOUND && m@ == prefix + name
}

fn not_found(prefix: &str, name: &str) -> (e: ServeError)
    ensures
        is_not_found(e, prefix@, name@),
{
    let mut message = String::from_str(prefix);
    message.append(name);
    ServeError::UserFacing(NOT_FOUND, message)
}

/// The lookup of `name` among `entries`: the value of the first entry so named, or a
/// "not found" error saying `prefix` and the name.
pub open spec fn is_lookup<T>(entries: Seq<(String, T)>, name: Seq<char>, prefix: Seq<char>, r: Result<&T, ServeError>) -> bool {
    match r {
        Ok(v) => exists|k: int| is_first_named(entries, name, k) && *v == entries[k].1,
        Err(e) => !has_named(entries, name) && is_not_found(e, prefix, name),
    }
}

fn lookup<'a, T>(entries: &'a Vec<(String, T)>, name: &str, prefix: &str) -> (r: Result<&'a T, ServeError>)
    ensures
        is_lookup(entries@, name@, prefix@, r),
{
    match find_named(entries, name) {
        Some(k) => Ok(&entries[k].1),
        None => Err(not_found(prefix, name)),
    }
}

/// A repository held in memory, given whole in the server's configuration.
/// Each rig is held as its JSON text.
#[derive(Debug)]
pub struct MemoryRepository {
    pub devices: Vec<(String, Device)>,
    pub playlists: Vec<(String, Playlist)>,
    pub rigs: Vec<(String, String)>,
}

impl MemoryRepository {
    /// A repository of the given devices, playlists and rigs.
    pub fn new(
        devices: Vec<(String, Device)>,
        playlists: Vec<(String, Playlist)>,
        rigs: Vec<(String, String)>,
    ) -> (r: MemoryRepository)
        ensures
            r.devices@ == devices@,
            r.playlists@ == playlists@,
            r.rigs@ == rigs@,
    {
        MemoryRepository { devices, playlists, rigs }
    }

    /// The rig `name`, or "Rig not found: `name`" (404).
    pub fn get_rig(&self, name: &str) -> (r: Result<&String, ServeError>)
        ensures
            is_lookup(self.rigs@, name@, "Rig not found: "@, r),
    {
        lookup(&self.rigs, name, "Rig not found: ")
    }

    /// The playlist `name`, or "Playlist not found: `name`" (404).
    pub fn get_playlist(&self, name: &str) -> (r: Result<&Playlist, ServeError>)
        ensures
            is_lookup(self.playlists@, name@, "Playlist not found: "@, r),
    {
        lookup(&self.playlists, name, "Playlist not found: ")
    }

    /// The device `name`, or "Device not found: `name`" (404).
    pub fn get_device(&self, name: &str) -> (r: Result<&Device, ServeError>)
        ensures
            is_lookup(self.devices@, name@, "Device not found: "@, r),
    {
        lookup(&self.devices, name, "Device not found: ")
    }
}

} // verus!
