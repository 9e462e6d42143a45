//! The records that the parsers produce, each with the mathematical value
//! that contracts speak of.

use vstd::prelude::*;

verus! {

/// One installed plugin, as `plugin list` prints it.
#[derive(Debug, Clone, PartialEq, Eq)]
pub struct Plugin {
    pub name: String,
    pub url: Option<String>,
    pub git_ref: Option<String>,
}

/// What a [`Plugin`] holds.
pub struct PluginView {
    pub name: Seq<char>,
    pub url: Option<Seq<char>>,
    pub git_ref: Option<Seq<char>>,
}

impl DeepView for Plugin {
    type V = PluginView;

    open spec fn deep_view(&self) -> PluginView {
        PluginView {
            name: self.name@,
            url: self.url.deep_view(),
            git_ref: self.git_ref.deep_view(),
        }
    }
}

/// One plugin of the registry, as `plugin list all` prints it.
#[derive(Debug, Clone, PartialEq, Eq)]
pub struct PluginRegistry {
    pub name: String,
    pub url: String,
}

/// What a [`PluginRegistry`] holds.
pub struct PluginRegistryView {
    pub name: Seq<char>,
    pub url: Seq<char>,
}

impl DeepView for PluginRegistry {
    type V = PluginRegistryView;

    open spec fn deep_view(&self) -> PluginRegistryView {
        PluginRegistryView { name: self.name@, url: self.url@ }
    }
}

/// The version of one tool that is in force, as `current` prints it.
#[derive(Debug, Clone, PartialEq, Eq)]
pub struct CurrentVersion {
    pub name: String,
    pub version: String,
    pub source: String,
    pub installed: bool,
}

/// What a [`CurrentVersion`] holds.
pub struct CurrentVersionView {
    pub name: Seq<char>,
    pub version: Seq<char>,
    pub source: Seq<char>,
    pub installed: bool,
}

impl DeepView for CurrentVersion {
    type V = CurrentVersionView;

    open spec fn deep_view(&self) -> CurrentVersionView {
        CurrentVersionView {
            name: self.name@,
            version: self.version@,
            source: self.source@,
            installed: self.installed,
        }
    }
}

/// The newest version of one tool beside the installed one, as
/// `latest --all` prints it.
#[derive(Debug, Clone, PartialEq, Eq)]
pub struct LatestInfo {
    pub name: String,
    pub latest: String,
    pub installed_version: Option<String>,
    pub up_to_date: bool,
}

/// What a [`LatestInfo`] holds.
pub struct LatestInfoView {
    pub name: Seq<char>,
    pub latest: Seq<char>,
    pub installed_version: Option<Seq<char>>,
    pub up_to_date: bool,
}

impl DeepView for LatestInfo {
    type V = LatestInfoView;

    open spec fn deep_view(&self) -> LatestInfoView {
        LatestInfoView {
            name: self.name@,
            latest: self.latest@,
            installed_version: self.installed_version.deep_view(),
            up_to_date: self.up_to_date,
        }
    }
}

/// One plugin version that provides a shim, as `shimversions` prints it.
#[derive(Debug, Clone, PartialEq, Eq)]
pub struct ShimVersion {
    pub plugin: String,
    pub version: String,
}

/// What a [`ShimVersion`] holds.
pub struct ShimVersionView {
    pub plugin: Seq<char>,
    pub version: Seq<char>,
}

impl DeepView for ShimVersion {
    type V = ShimVersionView;

    open spec fn deep_view(&self) -> ShimVersionView {
        ShimVersionView { plugin: self.plugin@, version: self.version@ }
    }
}

/// One environment variable, as `env` prints it.
#[derive(Debug, Clone, PartialEq, Eq)]
pub struct EnvVar {
    pub key: String,
    pub value: String,
}

/// What an [`EnvVar`] holds.
pub struct EnvVarView {
    pub key: Seq<char>,
    pub value: Seq<char>,
}

impl DeepView for EnvVar {
    type V = EnvVarView;

    open spec fn deep_view(&self) -> EnvVarView {
        EnvVarView { key: self.key@, value: self.value@ }
    }
}

/// The installation summary that `info` prints.
#[derive(Debug, Clone, PartialEq, Eq)]
pub struct AsdfInfo {
    pub version: String,
    pub os: String,
    pub shell: String,
    pub asdf_dir: String,
    pub asdf_data_dir: String,
    pub plugins: Vec<String>,
}

/// What an [`AsdfInfo`] holds.
pub struct AsdfInfoView {
    pub version: Seq<char>,
    pub os: Seq<char>,
    pub shell: Seq<char>,
    pub asdf_dir: Seq<char>,
    pub asdf_data_dir: Seq<char>,
    pub plugins: Seq<Seq<char>>,
}

impl DeepView for AsdfInfo {
    type V = AsdfInfoView;

    open spec fn deep_view(&self) -> AsdfInfoView {
        AsdfInfoView {
            version: self.version@,
            os: self.os@,
            shell: self.shell@,
            asdf_dir: self.asdf_dir@,
            asdf_data_dir: self.asdf_data_dir@,
            plugins: self.plugins.deep_view(),
        }
    }
}

/// One line of a tool-versions file: a tool and its versions in order of
/// preference.
#[derive(Debug, Clone, PartialEq, Eq)]
pub struct ToolVersion {
    pub tool: String,
    pub versions: Vec<String>,
}

/// What a [`ToolVersion`] holds.
pub struct ToolVersionView {
    pub tool: Seq<char>,
    pub versions: Seq<Seq<char>>,
}

impl DeepView for ToolVersion {
    type V = ToolVersionView;

    open spec fn deep_view(&self) -> ToolVersionView {
        ToolVersionView { tool: self.tool@, versions: self.versions.deep_view() }
    }
}

/// Which tool-versions file a `set` writes to.
#[derive(Debug, Clone, Copy, PartialEq, Eq)]
pub enum SetScope {
    Local,
    Home,
    Parent,
}

/// One event of a streamed installation.
#[derive(Debug, Clone, PartialEq, Eq)]
pub enum InstallEvent {
    Stdout(String),
    Stderr(String),
    Finished { success: bool },
}

/// What an [`InstallEvent`] holds.
pub enum InstallEventView {
    Stdout(Seq<char>),
    Stderr(Seq<char>),
    Finished { success: bool },
}

impl DeepView for InstallEvent {
    type V = InstallEventView;

    open spec fn deep_view(&self) -> InstallEventView {
        match self {
            InstallEvent::Stdout(line) => InstallEventView::Stdout(line@),
            InstallEvent::Stderr(line) => InstallEventView::Stderr(line@),
            InstallEvent::Finished { success } => InstallEventView::Finished { success: *success },
        }
    }
}

} // verus!
