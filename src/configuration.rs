use crate::error::{is_plain, Error};
use crate::path::{joined, join_path};
use vstd::prelude::*;

verus! {

/// One desired link: where it points, and optional overrides of the group's
/// defaults.
#[derive(Debug, PartialEq)]
pub struct LinkConfiguration {
    pub target: String,
    pub relative: Option<bool>,
    pub force: Option<bool>,
}

#[derive(Debug, PartialEq)]
pub struct TargetConfiguration {
    pub force: Option<bool>,
}

#[derive(Debug, PartialEq)]
pub struct CleanConfiguration {
    pub targets: Option<Vec<(String, TargetConfiguration)>>,
    pub force: Option<bool>,
}

/// A group of links, each keyed by the link path as written, with the
/// group-wide defaults. Links are processed in the order they stand here.
#[derive(Debug, PartialEq)]
pub struct GroupConfiguration {
    pub links: Option<Vec<(String, LinkConfiguration)>>,
    pub clean: Option<CleanConfiguration>,
    pub relative: Option<bool>,
    pub force: Option<bool>,
}

/// No key appears twice in `entries`.
pub open spec fn keys_unique<T>(entries: Seq<(String, T)>) -> bool {
    forall|i: int, j: int| 0 <= i < j < entries.len() ==> entries[i].0@ != entries[j].0@
}

impl GroupConfiguration {
    /// Each link path is configured once, as in a map.
    pub open spec fn wf(&self) -> bool {
        self.links is Some ==> keys_unique(self.links->Some_0@)
    }

    /// Whether each link path is configured once.
    pub fn has_unique_links(&self) -> (r: bool)
        ensures
            r == self.wf(),
    {
        let links = match &self.links {
            Some(v) => v,
            None => {
                return true;
            },
        };
        assert(self.links->Some_0@ == links@);
        let n = links.len();
        let mut j: usize = 0;
        while j < n
            invariant
                self.links is Some && self.links->Some_0@ == links@,
                n == links@.len(),
                j <= n,
                keys_unique(links@.subrange(0, j as int)),
            decreases n - j,
        {
            let mut i: usize = 0;
            while i < j
                invariant
                    self.links is Some && self.links->Some_0@ == links@,
                    n == links@.len(),
                    i <= j < n,
                    forall|k: int| 0 <= k < i ==> links@[k].0@ != links@[j as int].0@,
                decreases j - i,
            {
                if links[i].0.eq(&links[j].0) {
                    assert(links@[i as int].0@ == links@[j as int].0@);
                    assert(!keys_unique(links@));
                    return false;
                }
                i = i + 1;
            }
            assert(keys_unique(links@.subrange(0, j + 1)));
            j = j + 1;
        }
        assert(links@.subrange(0, n as int) =~= links@);
        true
    }
}

/// The flag that applies: the link's own, else the group's, else `false`.
pub open spec fn effective(own: Option<bool>, group: Option<bool>) -> bool {
    match own {
        Some(b) => b,
        None => match group {
            Some(b) => b,
            None => false,
        },
    }
}

pub fn effective_flag(own: Option<bool>, group: Option<bool>) -> (r: bool)
    ensures
        r == effective(own, group),
{
    match own {
        Some(b) => b,
        None => group.unwrap_or(false),
    }
}

impl LinkConfiguration {
    pub fn effective_relative(&self, group: &GroupConfiguration) -> (r: bool)
        ensures
            r == effective(self.relative, group.relative),
    {
        effective_flag(self.relative, group.relative)
    }

    pub fn effective_force(&self, group: &GroupConfiguration) -> (r: bool)
        ensures
            r == effective(self.force, group.force),
    {
        effective_flag(self.force, group.force)
    }
}

/// The formats a configuration file can be written in.
#[derive(Debug, Clone, Copy, PartialEq, Eq, Structural)]
pub enum ConfigurationFormat {
    Json,
    Toml,
    Yaml,
}

pub open spec fn file_name_of(format: ConfigurationFormat) -> Seq<char> {
    match format {
        ConfigurationFormat::Json => "idot.json"@,
        ConfigurationFormat::Toml => "idot.toml"@,
        ConfigurationFormat::Yaml => "idot.yaml"@,
    }
}

impl ConfigurationFormat {
    /// The name of the configuration file in this format.
    pub fn file_name(&self) -> (r: &'static str)
        ensures
            r@ == file_name_of(*self),
    {
        match self {
            ConfigurationFormat::Json => "idot.json",
            ConfigurationFormat::Toml => "idot.toml",
            ConfigurationFormat::Yaml => "idot.yaml",
        }
    }
}

/// Where the configuration file of `directory` in `format` would stand.
pub fn candidate_path(directory: &str, format: ConfigurationFormat) -> (r: String)
    ensures
        r@ == joined(directory@, file_name_of(format)),
{
    join_path(directory, format.file_name())
}

/// What the filesystem says about a directory and its candidate files.
#[derive(Debug, Clone, Copy)]
pub struct ConfigurationProbe {
    pub is_directory: bool,
    pub json_is_file: bool,
    pub toml_is_file: bool,
    pub yaml_is_file: bool,
}

/// The format whose file is used: the first of json, toml, yaml that is a
/// regular file, and only inside an existing directory.
pub open spec fn detected_format(probe: ConfigurationProbe) -> Option<ConfigurationFormat> {
    if !probe.is_directory {
        None
    } else if probe.json_is_file {
        Some(ConfigurationFormat::Json)
    } else if probe.toml_is_file {
        Some(ConfigurationFormat::Toml)
    } else if probe.yaml_is_file {
        Some(ConfigurationFormat::Yaml)
    } else {
        None
    }
}

/// The configuration file of `directory` (an absolute path), given what a
/// probe of the directory and of each candidate found.
pub fn detect_configuration_path(directory: &str, probe: &ConfigurationProbe) -> (r: Option<
    String,
>)
    ensures
        r is Some == detected_format(*probe) is Some,
        r is Some ==> r->Some_0@ == joined(directory@, file_name_of(detected_format(*probe)->Some_0)),
{
    if !probe.is_directory {
        return None;
    }
    if probe.json_is_file {
        return Some(candidate_path(directory, ConfigurationFormat::Json));
    }
    if probe.toml_is_file {
        return Some(candidate_path(directory, ConfigurationFormat::Toml));
    }
    if probe.yaml_is_file {
        return Some(candidate_path(directory, ConfigurationFormat::Yaml));
    }
    None
}

/// Finds the configuration file of a workspace and picks its format.
pub struct DefaultGroupConfigurationLoader {}

impl DefaultGroupConfigurationLoader {
    pub fn new() -> (r: Self) {
        DefaultGroupConfigurationLoader {  }
    }

    /// The file to read and the format to read it in; fails with
    /// "Not found configuration file" when the probe finds none.
    pub fn locate(&self, workspace: &str, probe: &ConfigurationProbe) -> (r: Result<
        (String, ConfigurationFormat),
        Error,
    >)
        ensures
            match detected_format(*probe) {
                Some(f) => r is Ok && r->Ok_0.1 == f && r->Ok_0.0@ == joined(
                    workspace@,
                    file_name_of(f),
                ),
                None => r is Err && is_plain(r->Err_0, "Not found configuration file"@),
            },
    {
        let found = detect_configuration_path(workspace, probe);
        match found {
            Some(path) => {
                let format = if probe.json_is_file {
                    ConfigurationFormat::Json
                } else if probe.toml_is_file {
                    ConfigurationFormat::Toml
                } else {
                    ConfigurationFormat::Yaml
                };
                Ok((path, format))
            },
            None => Err(Error::new("Not found configuration file")),
        }
    }
}

} // verus!
