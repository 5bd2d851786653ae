//! The engine's control logic: which channels a pack gives the mixer, and the
//! engine's states (`Unloaded`, `Loaded`, `Playing`, `Stopped`) with the
//! per-metric switches. Building and driving the audio graph is the caller's.
use vstd::prelude::*;

use crate::pack::{opt_view, SoundMode, SoundPack, SoundPackConfig};

verus! {

/// A centred channel of one or two sounds.
#[derive(Debug, Clone)]
pub struct ChannelLayout {
    pub mode: SoundMode,
    pub primary: Option<String>,
    pub secondary: Option<String>,
    pub slide_interval: u32,
    pub frequency_fluctuation: bool,
}

/// How the CPU metric sounds.
#[derive(Debug, Clone)]
pub enum CpuLayout {
    /// The pack has no CPU sound.
    Silent,
    /// One centred channel driven by the mean load.
    Averaged(ChannelLayout),
    /// One source split into a panned, pitched branch per core.
    PerCore { path: String, cores: usize, slide_interval: u32, frequency_fluctuation: bool },
}

/// The channels that the mixer holds after a pack is loaded.
#[derive(Debug, Clone)]
pub struct MixerLayout {
    pub cpu: CpuLayout,
    pub ram: Option<ChannelLayout>,
    pub disk: Option<ChannelLayout>,
}

/// A channel, with its file names as text.
pub struct ChannelPlan {
    pub mode: SoundMode,
    pub primary: Option<Seq<char>>,
    pub secondary: Option<Seq<char>>,
    pub slide_interval: u32,
    pub frequency_fluctuation: bool,
}

pub enum CpuPlan {
    Silent,
    Averaged(ChannelPlan),
    PerCore { path: Seq<char>, cores: usize, slide_interval: u32, frequency_fluctuation: bool },
}

pub struct MixerPlan {
    pub cpu: CpuPlan,
    pub ram: Option<ChannelPlan>,
    pub disk: Option<ChannelPlan>,
}

impl View for ChannelLayout {
    type V = ChannelPlan;

    open spec fn view(&self) -> ChannelPlan {
        ChannelPlan {
            mode: self.mode,
            primary: opt_view(self.primary),
            secondary: opt_view(self.secondary),
            slide_interval: self.slide_interval,
            frequency_fluctuation: self.frequency_fluctuation,
        }
    }
}

/// The view of an optional channel.
pub open spec fn opt_channel_view(o: Option<ChannelLayout>) -> Option<ChannelPlan> {
    match o {
        Some(c) => Some(c@),
        None => None,
    }
}

impl View for CpuLayout {
    type V = CpuPlan;

    open spec fn view(&self) -> CpuPlan {
        match self {
            CpuLayout::Silent => CpuPlan::Silent,
            CpuLayout::Averaged(c) => CpuPlan::Averaged(c@),
            CpuLayout::PerCore { path, cores, slide_interval, frequency_fluctuation } => CpuPlan::PerCore {
                path: path@,
                cores: *cores,
                slide_interval: *slide_interval,
                frequency_fluctuation: *frequency_fluctuation,
            },
        }
    }
}

impl View for MixerLayout {
    type V = MixerPlan;

    open spec fn view(&self) -> MixerPlan {
        MixerPlan { cpu: self.cpu@, ram: opt_channel_view(self.ram), disk: opt_channel_view(self.disk) }
    }
}

/// A centred channel over `sounds`, when they include a primary sound.
pub open spec fn channel_plan_of(
    mode: SoundMode,
    sounds: (Option<Seq<char>>, Option<Seq<char>>),
    c: SoundPackConfig,
) -> Option<ChannelPlan> {
    if sounds.0 is Some {
        Some(
            ChannelPlan {
                mode,
                primary: sounds.0,
                secondary: sounds.1,
                slide_interval: c.slide_interval,
                frequency_fluctuation: c.frequency_fluctuation,
            },
        )
    } else {
        None
    }
}

/// The mixer for pack `p` on a machine with `cores` cores: a CPU channel when
/// the pack has a CPU sound (averaged or per core, as the pack says), and a
/// RAM and a disk channel when the pack has those sounds.
pub open spec fn layout_of(p: SoundPack, cores: usize) -> MixerPlan {
    let c = p.config;
    MixerPlan {
        cpu: if p.cpu_sounds@.0 is None {
            CpuPlan::Silent
        } else if c.use_averages {
            CpuPlan::Averaged(channel_plan_of(c.cpu_mode, p.cpu_sounds@, c)->0)
        } else {
            CpuPlan::PerCore {
                path: p.cpu_sounds@.0->0,
                cores,
                slide_interval: c.slide_interval,
                frequency_fluctuation: c.frequency_fluctuation,
            }
        },
        ram: channel_plan_of(c.ram_mode, p.ram_sounds@, c),
        disk: channel_plan_of(c.disk_mode, p.disk_sounds@, c),
    }
}

fn clone_path(o: &Option<String>) -> (r: Option<String>)
    ensures
        opt_view(r) == opt_view(*o),
{
    match o {
        Some(s) => Some(s.clone()),
        None => None,
    }
}

fn channel_layout(
    mode: SoundMode,
    primary: &Option<String>,
    secondary: &Option<String>,
    c: SoundPackConfig,
) -> (r: Option<ChannelLayout>)
    ensures
        opt_channel_view(r) == channel_plan_of(mode, (opt_view(*primary), opt_view(*secondary)), c),
{
    if primary.is_some() {
        Some(
            ChannelLayout {
                mode,
                primary: clone_path(primary),
                secondary: clone_path(secondary),
                slide_interval: c.slide_interval,
                frequency_fluctuation: c.frequency_fluctuation,
            },
        )
    } else {
        None
    }
}

/// The mixer that `pack` gives on a machine with `num_cores` cores.
pub fn mixer_layout(pack: &SoundPack, num_cores: usize) -> (r: MixerLayout)
    ensures
        r@ == layout_of(*pack, num_cores),
{
    let c = pack.config;
    let cpu = match &pack.cpu_sounds.primary {
        None => CpuLayout::Silent,
        Some(path) => {
            if c.use_averages {
                let ch = channel_layout(
                    c.cpu_mode,
                    &pack.cpu_sounds.primary,
                    &pack.cpu_sounds.secondary,
                    c,
                );
                match ch {
                    Some(l) => CpuLayout::Averaged(l),
                    None => CpuLayout::Silent,
                }
            } else {
                CpuLayout::PerCore {
                    path: path.clone(),
                    cores: num_cores,
                    slide_interval: c.slide_interval,
                    frequency_fluctuation: c.frequency_fluctuation,
                }
            }
        },
    };
    let ram = channel_layout(c.ram_mode, &pack.ram_sounds.primary, &pack.ram_sounds.secondary, c);
    let disk = channel_layout(c.disk_mode, &pack.disk_sounds.primary, &pack.disk_sounds.secondary, c);
    MixerLayout { cpu, ram, disk }
}


/// The pan of branch `index` out of `cores`, as a fraction `(numerator,
/// denominator)` of full right: centred for one core, otherwise evenly from
/// hard left (`-1`) for the first core to hard right (`+1`) for the last.
pub open spec fn pan_of(index: int, cores: int) -> (int, int) {
    if cores == 1 {
        (0, 1)
    } else {
        (2 * index - (cores - 1), cores - 1)
    }
}

/// The pan of branch `index` out of `cores`, as an exact fraction.
pub fn pan_position(index: usize, cores: usize) -> (r: (i64, i64))
    requires
        index < cores,
        cores <= 0x4000_0000_0000_0000,
    ensures
        (r.0 as int, r.1 as int) == pan_of(index as int, cores as int),
        r.1 > 0,
{
    if cores == 1 {
        (0, 1)
    } else {
        let i = index as i64;
        let last = (cores - 1) as i64;
        (2 * i - last, last)
    }
}

/// Where the engine stands.
#[derive(Debug, Clone, Copy, PartialEq, Eq, Structural)]
pub enum EngineStatus {
    Unloaded,
    Loaded,
    Playing,
    Stopped,
}

/// Why the engine refused to act.
#[derive(Debug, Clone, Copy, PartialEq, Eq, Structural)]
pub enum ControlError {
    /// `play` before any pack was loaded.
    NoPackLoaded,
}

/// The engine's control state, as the laws speak of it.
pub struct ControlState {
    pub status: EngineStatus,
    pub pack: Option<SoundPack>,
    pub cores: usize,
    pub cpu_enabled: bool,
    pub ram_enabled: bool,
    pub disk_enabled: bool,
    pub use_averages: bool,
}

/// The engine's state and switches. The mixer it asks for is `layout_of` the
/// loaded pack and core count.
pub struct EngineControl {
    status: EngineStatus,
    pack: Option<SoundPack>,
    cores: usize,
    cpu_enabled: bool,
    ram_enabled: bool,
    disk_enabled: bool,
    use_averages: bool,
}

impl View for EngineControl {
    type V = ControlState;

    closed spec fn view(&self) -> ControlState {
        ControlState {
            status: self.status,
            pack: self.pack,
            cores: self.cores,
            cpu_enabled: self.cpu_enabled,
            ram_enabled: self.ram_enabled,
            disk_enabled: self.disk_enabled,
            use_averages: self.use_averages,
        }
    }
}

/// A fresh engine: nothing loaded, every metric switched on.
pub open spec fn initial_state() -> ControlState {
    ControlState {
        status: EngineStatus::Unloaded,
        pack: None,
        cores: 0,
        cpu_enabled: true,
        ram_enabled: true,
        disk_enabled: true,
        use_averages: true,
    }
}

/// After `stop`: a loaded engine is stopped; an unloaded one stays so.
pub open spec fn stopped(s: ControlState) -> ControlState {
    ControlState {
        status: if s.status == EngineStatus::Unloaded {
            EngineStatus::Unloaded
        } else {
            EngineStatus::Stopped
        },
        ..s
    }
}

/// After `load_pack(p, cores)`: playback stopped, `p` loaded.
pub open spec fn loaded(s: ControlState, p: SoundPack, cores: usize) -> ControlState {
    ControlState {
        status: EngineStatus::Loaded,
        pack: Some(p),
        cores,
        use_averages: p.config.use_averages,
        ..s
    }
}

/// After a successful `play`.
pub open spec fn playing(s: ControlState) -> ControlState {
    ControlState { status: EngineStatus::Playing, ..s }
}

impl EngineControl {
    pub fn new() -> (r: Self)
        ensures
            r@ == initial_state(),
    {
        EngineControl {
            status: EngineStatus::Unloaded,
            pack: None,
            cores: 0,
            cpu_enabled: true,
            ram_enabled: true,
            disk_enabled: true,
            use_averages: true,
        }
    }

    /// Stops playback and loads `pack`; returns the mixer to build in place of
    /// the current one.
    pub fn load_pack(&mut self, pack: SoundPack, num_cores: usize) -> (r: MixerLayout)
        ensures
            final(self)@ == loaded(old(self)@, pack, num_cores),
            r@ == layout_of(pack, num_cores),
    {
        self.stop();
        let layout = mixer_layout(&pack, num_cores);
        self.use_averages = pack.config.use_averages;
        self.pack = Some(pack);
        self.cores = num_cores;
        self.status = EngineStatus::Loaded;
        layout
    }

    /// Starts playback; fails when no pack is loaded.
    pub fn play(&mut self) -> (r: Result<(), ControlError>)
        ensures
            old(self)@.pack is None ==> r == Err::<(), ControlError>(ControlError::NoPackLoaded)
                && final(self)@ == old(self)@,
            old(self)@.pack is Some ==> r is Ok && final(self)@ == playing(old(self)@),
    {
        if self.pack.is_none() {
            return Err(ControlError::NoPackLoaded);
        }
        self.status = EngineStatus::Playing;
        Ok(())
    }

    /// Stops playback. The caller silences every channel and resets its
    /// smoothing, so that a restart begins from silence.
    pub fn stop(&mut self)
        ensures
            final(self)@ == stopped(old(self)@),
    {
        if self.status != EngineStatus::Unloaded {
            self.status = EngineStatus::Stopped;
        }
    }

    pub fn status(&self) -> (r: EngineStatus)
        ensures
            r == self@.status,
    {
        self.status
    }

    pub fn is_playing(&self) -> (r: bool)
        ensures
            r == (self@.status == EngineStatus::Playing),
    {
        self.status == EngineStatus::Playing
    }

    /// The loaded pack, if any.
    pub fn pack(&self) -> (r: Option<&SoundPack>)
        ensures
            r matches Some(p) ==> self@.pack == Some(*p),
            r is None <==> self@.pack is None,
    {
        match &self.pack {
            Some(p) => Some(p),
            None => None,
        }
    }

    /// Whether the loaded pack sounds the CPU per core.
    pub fn uses_averages(&self) -> (r: bool)
        ensures
            r == self@.use_averages,
    {
        self.use_averages
    }

    pub fn set_cpu_enabled(&mut self, enabled: bool)
        ensures
            final(self)@ == (ControlState { cpu_enabled: enabled, ..old(self)@ }),
    {
        self.cpu_enabled = enabled;
    }

    pub fn set_ram_enabled(&mut self, enabled: bool)
        ensures
            final(self)@ == (ControlState { ram_enabled: enabled, ..old(self)@ }),
    {
        self.ram_enabled = enabled;
    }

    pub fn set_disk_enabled(&mut self, enabled: bool)
        ensures
            final(self)@ == (ControlState { disk_enabled: enabled, ..old(self)@ }),
    {
        self.disk_enabled = enabled;
    }

    /// Whether the CPU channel hears its metric; a switched-off metric is fed zero.
    pub fn cpu_enabled(&self) -> (r: bool)
        ensures
            r == self@.cpu_enabled,
    {
        self.cpu_enabled
    }

    pub fn ram_enabled(&self) -> (r: bool)
        ensures
            r == self@.ram_enabled,
    {
        self.ram_enabled
    }

    pub fn disk_enabled(&self) -> (r: bool)
        ensures
            r == self@.disk_enabled,
    {
        self.disk_enabled
    }
}

/// Stopping twice leaves the engine as stopping once does.
pub proof fn lemma_stop_idempotent(s: ControlState)
    ensures
        stopped(stopped(s)) == stopped(s),
{
}

/// Loading the same pack twice leaves the engine, and the mixer it asks for,
/// as loading it once does.
pub proof fn lemma_load_pack_twice(s: ControlState, p: SoundPack, cores: usize)
    ensures
        loaded(loaded(s, p, cores), p, cores) == loaded(s, p, cores),
        layout_of(loaded(loaded(s, p, cores), p, cores).pack->0, cores) == layout_of(
            loaded(s, p, cores).pack->0,
            cores,
        ),
{
}

} // verus!
