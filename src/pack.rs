//! Sound packs: the `[soundpack]` settings, the sound files of each channel,
//! and how a pack directory is turned into a `SoundPack`.
use vstd::prelude::*;

use crate::prefs::{find_section, parse_document, parse_error_text, parsed_sections, property, property_map};
use crate::text::{parse_i32, parse_u32, parsed_i32, parsed_u32};

verus! {

/// How a channel turns its metric into sound.
#[derive(Debug, Clone, Copy, PartialEq, Eq, Structural)]
pub enum SoundMode {
    /// The channel is silent.
    Disabled,
    /// One sound whose volume follows the metric.
    Volume,
    /// An idle sound and an active sound, crossfaded by the metric.
    Fade,
}

/// The mode that a stored integer stands for: `0` disabled, `2` fade, anything else volume.
pub open spec fn mode_of(value: int) -> SoundMode {
    if value == 0 {
        SoundMode::Disabled
    } else if value == 2 {
        SoundMode::Fade
    } else {
        SoundMode::Volume
    }
}

impl SoundMode {
    pub fn from_int(value: i32) -> (r: Self)
        ensures
            r == mode_of(value as int),
    {
        match value {
            0 => SoundMode::Disabled,
            1 => SoundMode::Volume,
            2 => SoundMode::Fade,
            _ => SoundMode::Volume,
        }
    }
}

impl Default for SoundMode {
    fn default() -> (r: Self)
        ensures
            r == SoundMode::Volume,
    {
        SoundMode::Volume
    }
}

/// The settings of a pack's `[soundpack]` section.
#[derive(Debug, Clone, Copy, PartialEq, Eq, Structural)]
pub struct SoundPackConfig {
    /// One channel for the mean CPU load instead of one branch per core.
    pub use_averages: bool,
    pub cpu_mode: SoundMode,
    pub ram_mode: SoundMode,
    pub disk_mode: SoundMode,
    /// Larger values smooth more slowly.
    pub slide_interval: u32,
    /// Whether the metric also bends the pitch.
    pub frequency_fluctuation: bool,
}

/// The slide interval that a pack gets when it names none.
pub const DEFAULT_SLIDE_INTERVAL: u32 = 20;

/// The settings of a pack whose section names no key.
pub open spec fn default_config() -> SoundPackConfig {
    SoundPackConfig {
        use_averages: false,
        cpu_mode: SoundMode::Volume,
        ram_mode: SoundMode::Volume,
        disk_mode: SoundMode::Volume,
        slide_interval: 20,
        frequency_fluctuation: false,
    }
}

impl Default for SoundPackConfig {
    fn default() -> (r: Self)
        ensures
            r == default_config(),
    {
        SoundPackConfig {
            use_averages: false,
            cpu_mode: SoundMode::Volume,
            ram_mode: SoundMode::Volume,
            disk_mode: SoundMode::Volume,
            slide_interval: DEFAULT_SLIDE_INTERVAL,
            frequency_fluctuation: false,
        }
    }
}

/// The value stored under `key`, if any.
pub open spec fn setting(m: Map<Seq<char>, Seq<char>>, key: Seq<char>) -> Option<Seq<char>> {
    if m.contains_key(key) {
        Some(m[key])
    } else {
        None
    }
}

/// A `0`/`1` switch: on when the value reads as a nonzero integer, off otherwise.
pub open spec fn switch_of(v: Option<Seq<char>>) -> bool {
    match v {
        Some(t) => match parsed_i32(t) {
            Some(x) => x != 0,
            None => false,
        },
        None => false,
    }
}

/// A sound mode setting; volume when absent or malformed.
pub open spec fn mode_setting_of(v: Option<Seq<char>>) -> SoundMode {
    match v {
        Some(t) => match parsed_i32(t) {
            Some(x) => mode_of(x as int),
            None => SoundMode::Volume,
        },
        None => SoundMode::Volume,
    }
}

/// The slide interval setting; the default when absent or malformed.
pub open spec fn interval_setting_of(v: Option<Seq<char>>) -> u32 {
    match v {
        Some(t) => match parsed_u32(t) {
            Some(x) => x,
            None => 20,
        },
        None => 20,
    }
}

/// The settings that a `[soundpack]` section with entries `m` gives.
pub open spec fn config_of(m: Map<Seq<char>, Seq<char>>) -> SoundPackConfig {
    SoundPackConfig {
        use_averages: switch_of(setting(m, "UseAverages"@)),
        cpu_mode: mode_setting_of(setting(m, "CPUSoundMode"@)),
        ram_mode: mode_setting_of(setting(m, "RAMSoundMode"@)),
        disk_mode: mode_setting_of(setting(m, "DiskSoundMode"@)),
        slide_interval: interval_setting_of(setting(m, "SlideInterval"@)),
        frequency_fluctuation: switch_of(setting(m, "FrequencyFluctuation"@)),
    }
}

/// The view of an optional string.
pub open spec fn opt_view(o: Option<String>) -> Option<Seq<char>> {
    match o {
        Some(s) => Some(s@),
        None => None,
    }
}

/// Reads a `0`/`1` switch.
pub fn switch_setting(v: Option<String>) -> (r: bool)
    ensures
        r == switch_of(opt_view(v)),
{
    match v {
        Some(t) => match parse_i32(t.as_str()) {
            Some(x) => x != 0,
            None => false,
        },
        None => false,
    }
}

/// Reads a sound mode setting.
pub fn mode_setting(v: Option<String>) -> (r: SoundMode)
    ensures
        r == mode_setting_of(opt_view(v)),
{
    match v {
        Some(t) => match parse_i32(t.as_str()) {
            Some(x) => SoundMode::from_int(x),
            None => SoundMode::Volume,
        },
        None => SoundMode::Volume,
    }
}

/// Reads the slide interval setting.
pub fn interval_setting(v: Option<String>) -> (r: u32)
    ensures
        r == interval_setting_of(opt_view(v)),
{
    match v {
        Some(t) => match parse_u32(t.as_str()) {
            Some(x) => x,
            None => DEFAULT_SLIDE_INTERVAL,
        },
        None => DEFAULT_SLIDE_INTERVAL,
    }
}

impl SoundPackConfig {
    /// The settings of a `[soundpack]` section; missing or malformed values take defaults.
    pub fn from_section(p: &ini::Properties) -> (r: Self)
        ensures
            r == config_of(property_map(*p)),
    {
        let use_averages = switch_setting(property(p, "UseAverages"));
        let cpu_mode = mode_setting(property(p, "CPUSoundMode"));
        let ram_mode = mode_setting(property(p, "RAMSoundMode"));
        let disk_mode = mode_setting(property(p, "DiskSoundMode"));
        let slide_interval = interval_setting(property(p, "SlideInterval"));
        let frequency_fluctuation = switch_setting(property(p, "FrequencyFluctuation"));
        SoundPackConfig {
            use_averages,
            cpu_mode,
            ram_mode,
            disk_mode,
            slide_interval,
            frequency_fluctuation,
        }
    }
}


/// The path of `name` inside `dir`, as `Path::join` forms it on Unix: an
/// absolute `name` stands alone; otherwise a `/` separates the two unless
/// `dir` is empty or already ends in one.
pub open spec fn joined_path(dir: Seq<char>, name: Seq<char>) -> Seq<char> {
    if name.len() > 0 && name[0] == '/' {
        name
    } else if dir.len() == 0 || dir.last() == '/' {
        dir + name
    } else {
        dir + "/"@ + name
    }
}

/// The lower-case form of `s`.
pub uninterp spec fn lowercase_of(s: Seq<char>) -> Seq<char>;

/// Relies on `std::path::Path::join` (Unix separators): the path of `name`
/// inside `dir`, as text; both are UTF-8, so the text is exact.
#[verifier::external_body]
fn join_path(dir: &str, name: &str) -> (r: String)
    ensures
        r@ == joined_path(dir@, name@),
{
    std::path::Path::new(dir).join(name).to_string_lossy().into_owned()
}

/// Relies on `str::to_lowercase`: the result depends on the characters alone.
#[verifier::external_body]
fn lowercase(s: &str) -> (r: String)
    ensures
        r@ == lowercase_of(s@),
{
    s.to_lowercase()
}

/// The sound files of one channel.
#[derive(Debug, Clone)]
pub struct ChannelSounds {
    /// Volume mode: the sound. Fade mode: the idle sound.
    pub primary: Option<String>,
    /// Fade mode: the active sound.
    pub secondary: Option<String>,
}

impl View for ChannelSounds {
    type V = (Option<Seq<char>>, Option<Seq<char>>);

    open spec fn view(&self) -> Self::V {
        (opt_view(self.primary), opt_view(self.secondary))
    }
}

impl ChannelSounds {
    pub fn none() -> (r: Self)
        ensures
            r@ == (None::<Seq<char>>, None::<Seq<char>>),
    {
        ChannelSounds { primary: None, secondary: None }
    }

    pub fn single(path: String) -> (r: Self)
        ensures
            r@ == (Some(path@), None::<Seq<char>>),
    {
        ChannelSounds { primary: Some(path), secondary: None }
    }

    pub fn pair(idle: String, active: String) -> (r: Self)
        ensures
            r@ == (Some(idle@), Some(active@)),
    {
        ChannelSounds { primary: Some(idle), secondary: Some(active) }
    }

    /// A channel has sounds exactly when it has a primary sound.
    pub fn has_sounds(&self) -> (r: bool)
        ensures
            r == self.primary.is_some(),
    {
        self.primary.is_some()
    }
}

/// The file extensions tried, in order.
pub open spec fn extension(k: int) -> Seq<char> {
    if k == 0 {
        "ogg"@
    } else if k == 1 {
        "wav"@
    } else if k == 2 {
        "flac"@
    } else {
        "mp3"@
    }
}

pub const EXTENSION_COUNT: usize = 4;

fn extension_name(k: usize) -> (r: &'static str)
    requires
        k < 4,
    ensures
        r@ == extension(k as int),
{
    if k == 0 {
        "ogg"
    } else if k == 1 {
        "wav"
    } else if k == 2 {
        "flac"
    } else {
        "mp3"
    }
}

/// Some entry of `files` is named `name`.
pub open spec fn present(files: Seq<String>, name: Seq<char>) -> bool {
    exists|i: int| 0 <= i < files.len() && (#[trigger] files[i])@ == name
}

/// `base`, then `tag`, then a dot and the extension.
pub open spec fn file_name(base: Seq<char>, tag: Seq<char>, k: int) -> Seq<char> {
    base + tag + "."@ + extension(k)
}

/// The first idle/active pair found from extension `k` on: for each extension,
/// `<Base>_A`/`<Base>_B` first, then `<base>_a`/`<base>_b` in lower case.
pub open spec fn fade_pair_from(base: Seq<char>, lower: Seq<char>, files: Seq<String>, k: int) -> Option<
    (Seq<char>, Seq<char>),
>
    decreases 4 - k,
{
    if k < 0 || k >= 4 {
        None
    } else if present(files, file_name(base, "_A"@, k)) && present(files, file_name(base, "_B"@, k)) {
        Some((file_name(base, "_A"@, k), file_name(base, "_B"@, k)))
    } else if present(files, file_name(lower, "_a"@, k)) && present(files, file_name(lower, "_b"@, k)) {
        Some((file_name(lower, "_a"@, k), file_name(lower, "_b"@, k)))
    } else {
        fade_pair_from(base, lower, files, k + 1)
    }
}

/// The first single sound found from extension `k` on: `<Base>` first, then `<base>`.
pub open spec fn single_from(base: Seq<char>, lower: Seq<char>, files: Seq<String>, k: int) -> Option<Seq<char>>
    decreases 4 - k,
{
    if k < 0 || k >= 4 {
        None
    } else if present(files, file_name(base, ""@, k)) {
        Some(file_name(base, ""@, k))
    } else if present(files, file_name(lower, ""@, k)) {
        Some(file_name(lower, ""@, k))
    } else {
        single_from(base, lower, files, k + 1)
    }
}

/// The file names that a channel resolves to: none when disabled; in fade mode
/// a pair when one is present; otherwise a single sound when one is present.
pub open spec fn resolved_names(base: Seq<char>, mode: SoundMode, files: Seq<String>) -> (
    Option<Seq<char>>,
    Option<Seq<char>>,
) {
    let lower = lowercase_of(base);
    if mode == SoundMode::Disabled {
        (None, None)
    } else if mode == SoundMode::Fade && fade_pair_from(base, lower, files, 0) is Some {
        let p = fade_pair_from(base, lower, files, 0)->0;
        (Some(p.0), Some(p.1))
    } else {
        match single_from(base, lower, files, 0) {
            Some(n) => (Some(n), None),
            None => (None, None),
        }
    }
}

/// A resolved file name placed inside the pack directory.
pub open spec fn in_dir(dir: Seq<char>, n: Option<Seq<char>>) -> Option<Seq<char>> {
    match n {
        Some(x) => Some(joined_path(dir, x)),
        None => None,
    }
}

/// The sounds of a channel whose files are named from `base`, in a directory
/// holding the entries `files`.
pub open spec fn channel_sounds_of(dir: Seq<char>, base: Seq<char>, mode: SoundMode, files: Seq<String>) -> (
    Option<Seq<char>>,
    Option<Seq<char>>,
) {
    let n = resolved_names(base, mode, files);
    (in_dir(dir, n.0), in_dir(dir, n.1))
}

/// Whether `files` holds an entry named `name`.
fn is_present(files: &Vec<String>, name: &String) -> (r: bool)
    ensures
        r == present(files@, name@),
{
    let mut i: usize = 0;
    while i < files.len()
        invariant
            i <= files@.len(),
            forall|j: int| 0 <= j < i ==> (#[trigger] files@[j])@ != name@,
        decreases files@.len() - i,
    {
        if files[i] == *name {
            return true;
        }
        i = i + 1;
    }
    false
}

/// `base`, then `tag`, then a dot and extension `k`.
fn make_name(base: &str, tag: &str, k: usize) -> (r: String)
    requires
        k < 4,
    ensures
        r@ == file_name(base@, tag@, k as int),
{
    let mut r = base.to_owned();
    r.append(tag);
    r.append(".");
    r.append(extension_name(k));
    r
}


/// The first idle/active pair present in `files`.
fn find_fade_pair(base: &str, lower: &str, files: &Vec<String>) -> (r: Option<(String, String)>)
    ensures
        match r {
            Some(p) => fade_pair_from(base@, lower@, files@, 0) == Some((p.0@, p.1@)),
            None => fade_pair_from(base@, lower@, files@, 0) is None,
        },
{
    let mut k: usize = 0;
    while k < EXTENSION_COUNT
        invariant
            k <= 4,
            fade_pair_from(base@, lower@, files@, 0) == fade_pair_from(base@, lower@, files@, k as int),
        decreases 4 - k,
    {
        let idle = make_name(base, "_A", k);
        let active = make_name(base, "_B", k);
        if is_present(files, &idle) && is_present(files, &active) {
            return Some((idle, active));
        }
        let idle_lower = make_name(lower, "_a", k);
        let active_lower = make_name(lower, "_b", k);
        if is_present(files, &idle_lower) && is_present(files, &active_lower) {
            return Some((idle_lower, active_lower));
        }
        k = k + 1;
    }
    None
}

/// The first single sound present in `files`.
fn find_single(base: &str, lower: &str, files: &Vec<String>) -> (r: Option<String>)
    ensures
        opt_view(r) == single_from(base@, lower@, files@, 0),
{
    let mut k: usize = 0;
    while k < EXTENSION_COUNT
        invariant
            k <= 4,
            single_from(base@, lower@, files@, 0) == single_from(base@, lower@, files@, k as int),
        decreases 4 - k,
    {
        let single = make_name(base, "", k);
        if is_present(files, &single) {
            return Some(single);
        }
        let single_lower = make_name(lower, "", k);
        if is_present(files, &single_lower) {
            return Some(single_lower);
        }
        k = k + 1;
    }
    None
}

/// A loaded pack.
#[derive(Debug, Clone)]
pub struct SoundPack {
    /// The pack's directory.
    pub directory: String,
    /// The pack's name: the directory's own name.
    pub name: String,
    pub config: SoundPackConfig,
    pub cpu_sounds: ChannelSounds,
    pub ram_sounds: ChannelSounds,
    pub disk_sounds: ChannelSounds,
}

/// The names of the channels that a pack monitors, in the order CPU, RAM, Disk.
pub open spec fn monitored_names(c: SoundPackConfig) -> Seq<Seq<char>> {
    (if c.cpu_mode != SoundMode::Disabled { seq!["CPU"@] } else { Seq::empty() }) + (
    if c.ram_mode != SoundMode::Disabled { seq!["RAM"@] } else { Seq::empty() }) + (
    if c.disk_mode != SoundMode::Disabled { seq!["Disk"@] } else { Seq::empty() })
}

/// `parts` with `sep` between each two neighbours.
pub open spec fn joined(parts: Seq<Seq<char>>, sep: Seq<char>) -> Seq<char>
    decreases parts.len(),
{
    if parts.len() == 0 {
        Seq::empty()
    } else if parts.len() == 1 {
        parts[0]
    } else {
        joined(parts.drop_last(), sep) + sep + parts.last()
    }
}

/// The one-line summary of a pack's settings.
pub open spec fn description_of(c: SoundPackConfig) -> Seq<char> {
    let head = if c.use_averages {
        "Averaged CPU"@
    } else {
        "Per-core CPU"@
    };
    if monitored_names(c).len() == 0 {
        head
    } else {
        head + " | "@ + "Monitors: "@ + joined(monitored_names(c), ", "@)
    }
}

impl SoundPack {
    pub fn name(&self) -> (r: &str)
        ensures
            r@ == self.name@,
    {
        self.name.as_str()
    }

    /// A summary such as `Per-core CPU | Monitors: CPU, RAM, Disk`.
    pub fn description(&self) -> (r: String)
        ensures
            r@ == description_of(self.config),
    {
        let c = self.config;
        let mut names: Vec<&str> = Vec::new();
        if c.cpu_mode != SoundMode::Disabled {
            names.push("CPU");
        }
        if c.ram_mode != SoundMode::Disabled {
            names.push("RAM");
        }
        if c.disk_mode != SoundMode::Disabled {
            names.push("Disk");
        }
        let ghost ns = names@.map_values(|x: &str| x@);
        assert(ns =~= monitored_names(c));
        let mut r = if c.use_averages {
            "Averaged CPU".to_owned()
        } else {
            "Per-core CPU".to_owned()
        };
        let ghost head = r@;
        if names.len() > 0 {
            r.append(" | ");
            r.append("Monitors: ");
            let ghost lead = r@;
            let mut i: usize = 0;
            while i < names.len()
                invariant
                    i <= names@.len(),
                    ns == names@.map_values(|x: &str| x@),
                    r@ == lead + joined(ns.take(i as int), ", "@),
                decreases names@.len() - i,
            {
                proof {
                    if i > 0 {
                        assert(ns.take(i + 1).drop_last() =~= ns.take(i as int));
                    } else {
                        assert(ns.take(1).len() == 1);
                    }
                }
                if i > 0 {
                    r.append(", ");
                }
                r.append(names[i]);
                proof {
                    if i == 0 {
                        assert(joined(ns.take(0), ", "@) =~= Seq::<char>::empty());
                        assert(r@ =~= lead + ns.take(1)[0]);
                    } else {
                        assert(r@ =~= lead + (joined(ns.take(i as int), ", "@) + ", "@ + ns.take(i + 1).last()));
                    }
                }
                i = i + 1;
            }
            assert(ns.take(names@.len() as int) =~= ns);
        }
        r
    }
}

/// Why a pack could not be loaded.
#[derive(Debug, Clone)]
pub enum SoundPackError {
    IoError(String),
    ParseError(String),
    MissingSoundFile(String),
}

/// The text that describes an error.
pub open spec fn error_text(e: SoundPackError) -> Seq<char> {
    match e {
        SoundPackError::IoError(m) => "IO error: "@ + m@,
        SoundPackError::ParseError(m) => "Config parse error: "@ + m@,
        SoundPackError::MissingSoundFile(p) => "Missing sound file: "@ + p@,
    }
}

impl SoundPackError {
    /// The text that describes the error.
    pub fn message(&self) -> (r: String)
        ensures
            r@ == error_text(*self),
    {
        match self {
            SoundPackError::IoError(m) => {
                let mut r = "IO error: ".to_owned();
                r.append(m.as_str());
                r
            },
            SoundPackError::ParseError(m) => {
                let mut r = "Config parse error: ".to_owned();
                r.append(m.as_str());
                r
            },
            SoundPackError::MissingSoundFile(p) => {
                let mut r = "Missing sound file: ".to_owned();
                r.append(p.as_str());
                r
            },
        }
    }
}

/// `text` is a valid document with a `[soundpack]` section.
pub open spec fn has_pack_section(text: Seq<char>) -> bool {
    parsed_sections(text) is Some && parsed_sections(text)->0.contains_key("soundpack"@)
}

/// Finds and reads sound packs under one directory.
pub struct PackLoader {
    packs_directory: String,
}

/// The name a pack gets when its directory has none.
pub open spec fn pack_name_of(dir_name: Option<Seq<char>>) -> Seq<char> {
    match dir_name {
        Some(n) => n,
        None => "Unknown"@,
    }
}

impl PackLoader {
    pub fn new(packs_directory: String) -> (r: Self)
        ensures
            r.packs_directory() == packs_directory@,
    {
        PackLoader { packs_directory }
    }

    pub closed spec fn packs_directory(&self) -> Seq<char> {
        self.packs_directory@
    }

    /// The directory that holds the packs.
    pub fn directory(&self) -> (r: &str)
        ensures
            r@ == self.packs_directory(),
    {
        self.packs_directory.as_str()
    }

    /// The sounds of one channel of the pack in `pack_dir`, whose entries are
    /// named in `files`.
    pub fn resolve_sounds(pack_dir: &str, base_name: &str, mode: SoundMode, files: &Vec<String>) -> (r:
        ChannelSounds)
        ensures
            r@ == channel_sounds_of(pack_dir@, base_name@, mode, files@),
    {
        if mode == SoundMode::Disabled {
            return ChannelSounds::none();
        }
        let lower = lowercase(base_name);
        if mode == SoundMode::Fade {
            match find_fade_pair(base_name, lower.as_str(), files) {
                Some((idle, active)) => {
                    return ChannelSounds::pair(
                        join_path(pack_dir, idle.as_str()),
                        join_path(pack_dir, active.as_str()),
                    );
                },
                None => {},
            }
        }
        match find_single(base_name, lower.as_str(), files) {
            Some(single) => ChannelSounds::single(join_path(pack_dir, single.as_str())),
            None => ChannelSounds::none(),
        }
    }

    /// Builds the pack in `pack_dir` from the text of its `prefs.ini` and the
    /// names of the entries in the directory. Fails with a parse error when the
    /// text is not a valid document or has no `[soundpack]` section.
    pub fn load_pack(&self, pack_dir: &str, dir_name: Option<&str>, prefs: &str, files: &Vec<String>) -> (r:
        Result<SoundPack, SoundPackError>)
        ensures
            r is Ok <==> has_pack_section(prefs@),
            r matches Err(e) ==> e is ParseError,
            parsed_sections(prefs@) is Some && !has_pack_section(prefs@) ==> (r matches Err(
                SoundPackError::ParseError(m),
            ) && m@ == "Missing [soundpack] section"@),
            r matches Ok(p) ==> {
                &&& p.directory@ == pack_dir@
                &&& p.name@ == pack_name_of(
                    match dir_name {
                        Some(n) => Some(n@),
                        None => None,
                    },
                )
                &&& p.config == config_of(parsed_sections(prefs@)->0["soundpack"@])
                &&& p.cpu_sounds@ == channel_sounds_of(pack_dir@, "CPU"@, p.config.cpu_mode, files@)
                &&& p.ram_sounds@ == channel_sounds_of(pack_dir@, "RAM"@, p.config.ram_mode, files@)
                &&& p.disk_sounds@ == channel_sounds_of(pack_dir@, "disk"@, p.config.disk_mode, files@)
            },
    {
        let doc = match parse_document(prefs) {
            Ok(d) => d,
            Err(e) => {
                return Err(SoundPackError::ParseError(parse_error_text(&e)));
            },
        };
        let section = match find_section(&doc, "soundpack") {
            Some(s) => s,
            None => {
                return Err(SoundPackError::ParseError("Missing [soundpack] section".to_owned()));
            },
        };
        let config = SoundPackConfig::from_section(section);
        let cpu_sounds = Self::resolve_sounds(pack_dir, "CPU", config.cpu_mode, files);
        let ram_sounds = Self::resolve_sounds(pack_dir, "RAM", config.ram_mode, files);
        let disk_sounds = Self::resolve_sounds(pack_dir, "disk", config.disk_mode, files);
        let name = match dir_name {
            Some(n) => n.to_owned(),
            None => "Unknown".to_owned(),
        };
        Ok(SoundPack {
            directory: pack_dir.to_owned(),
            name,
            config,
            cpu_sounds,
            ram_sounds,
            disk_sounds,
        })
    }
}

} // verus!
