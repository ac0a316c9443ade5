//! The configuration of the server and how the editor's settings change it.

use vstd::prelude::*;

verus! {

/// One setting as the editor sent it.
#[derive(Debug)]
pub enum Setting<T> {
    /// The editor said nothing of it.
    Absent,
    /// The editor's value was refused; holds the reason.
    Invalid(String),
    /// The editor's value.
    Valid(T),
}

/// The settings of the editor that the server reads.
#[derive(Debug)]
pub struct Settings {
    /// URIs of the files that get no diagnostics.
    pub excluded_files: Setting<Vec<String>>,
    /// Names of the diagnostics that are not reported.
    pub ignored: Setting<Vec<String>>,
    /// The program that resolves the inputs of a flake.
    pub nix_binary: Setting<String>,
}

/// The configuration.
#[derive(Debug)]
pub struct Config {
    pub root_path: String,
    pub nix_binary: String,
    pub diagnostics_excluded_files: Vec<String>,
    pub diagnostics_ignored: Vec<String>,
}

/// The texts of a list of strings.
pub open spec fn texts(list: Seq<String>) -> Seq<Seq<char>> {
    Seq::new(list.len(), |i: int| list[i]@)
}

pub struct ConfigView {
    pub root_path: Seq<char>,
    pub nix_binary: Seq<char>,
    pub diagnostics_excluded_files: Seq<Seq<char>>,
    pub diagnostics_ignored: Seq<Seq<char>>,
}

impl View for Config {
    type V = ConfigView;

    open spec fn view(&self) -> ConfigView {
        ConfigView {
            root_path: self.root_path@,
            nix_binary: self.nix_binary@,
            diagnostics_excluded_files: texts(self.diagnostics_excluded_files@),
            diagnostics_ignored: texts(self.diagnostics_ignored@),
        }
    }
}

impl ConfigView {
    /// The configuration before the editor said anything.
    pub open spec fn initial(root_path: Seq<char>) -> ConfigView {
        ConfigView {
            root_path,
            nix_binary: "nix"@,
            diagnostics_excluded_files: Seq::empty(),
            diagnostics_ignored: Seq::empty(),
        }
    }

    /// Whether files under this URI get no diagnostics.
    pub open spec fn excludes(self, uri: Seq<char>) -> bool {
        self.diagnostics_excluded_files.contains(uri)
    }
}

/// A copy of the strings.
pub fn copy_strings(list: &Vec<String>) -> (copy: Vec<String>)
    ensures
        texts(copy@) == texts(list@),
{
    let mut copy: Vec<String> = Vec::new();
    let mut i: usize = 0;
    while i < list.len()
        invariant
            i <= list.len(),
            copy.len() == i,
            forall|k: int| 0 <= k < i ==> copy@[k]@ == list@[k]@,
        decreases list.len() - i,
    {
        copy.push(list[i].clone());
        i += 1;
    }
    assert(texts(copy@) =~= texts(list@));
    copy
}

impl Config {
    /// The configuration before the editor said anything.
    pub fn new(root_path: String) -> (config: Config)
        ensures
            config@ == ConfigView::initial(root_path@),
    {
        let config = Config {
            root_path,
            nix_binary: "nix".to_owned(),
            diagnostics_excluded_files: Vec::new(),
            diagnostics_ignored: Vec::new(),
        };
        assert(config@.diagnostics_excluded_files =~= Seq::empty());
        assert(config@.diagnostics_ignored =~= Seq::empty());
        config
    }

    /// A copy of the configuration.
    pub fn duplicate(&self) -> (copy: Config)
        ensures
            copy@ == self@,
    {
        Config {
            root_path: self.root_path.clone(),
            nix_binary: self.nix_binary.clone(),
            diagnostics_excluded_files: copy_strings(&self.diagnostics_excluded_files),
            diagnostics_ignored: copy_strings(&self.diagnostics_ignored),
        }
    }

    /// Whether files under this URI get no diagnostics.
    pub fn excludes(&self, uri: &String) -> (r: bool)
        ensures
            r == self@.excludes(uri@),
    {
        let mut i: usize = 0;
        while i < self.diagnostics_excluded_files.len()
            invariant
                i <= self.diagnostics_excluded_files.len(),
                forall|k: int| 0 <= k < i ==> self@.diagnostics_excluded_files[k] != uri@,
            decreases self.diagnostics_excluded_files.len() - i,
        {
            if self.diagnostics_excluded_files[i] == *uri {
                assert(self@.diagnostics_excluded_files[i as int] == uri@);
                return true;
            }
            i += 1;
        }
        false
    }
}

/// The message of a setting that was refused, if it was.
pub open spec fn setting_error<T>(setting: Setting<T>) -> Seq<Seq<char>> {
    match setting {
        Setting::Invalid(message) => seq![message@],
        _ => Seq::empty(),
    }
}

impl Settings {
    /// The messages of the settings that were refused, in the order of the
    /// settings.
    pub open spec fn errors(self) -> Seq<Seq<char>> {
        setting_error(self.excluded_files) + setting_error(self.ignored) + setting_error(
            self.nix_binary,
        )
    }

    /// Whether the settings change which diagnostics are reported: they
    /// hold an accepted value for the excluded files or the ignored
    /// diagnostics.
    pub open spec fn affects_diagnostics(self) -> bool {
        self.excluded_files is Valid || self.ignored is Valid
    }
}

impl ConfigView {
    /// The configuration after the editor's settings were merged into it:
    /// accepted values replace, anything else leaves what was.
    pub open spec fn updated(self, settings: Settings) -> ConfigView {
        ConfigView {
            root_path: self.root_path,
            nix_binary: match settings.nix_binary {
                Setting::Valid(binary) => binary@,
                _ => self.nix_binary,
            },
            diagnostics_excluded_files: match settings.excluded_files {
                Setting::Valid(files) => texts(files@),
                _ => self.diagnostics_excluded_files,
            },
            diagnostics_ignored: match settings.ignored {
                Setting::Valid(names) => texts(names@),
                _ => self.diagnostics_ignored,
            },
        }
    }
}

impl Config {
    /// Merges the editor's settings into the configuration. Hands out the
    /// messages of the settings that were refused, and whether the
    /// diagnostics have to be computed anew.
    pub fn update(&mut self, settings: Settings) -> (r: (Vec<String>, bool))
        ensures
            final(self)@ == old(self)@.updated(settings),
            texts(r.0@) == settings.errors(),
            r.1 == settings.affects_diagnostics(),
    {
        let mut errors: Vec<String> = Vec::new();
        let mut updated_diagnostics = false;
        match settings.excluded_files {
            Setting::Valid(files) => {
                self.diagnostics_excluded_files = files;
                updated_diagnostics = true;
            },
            Setting::Invalid(message) => {
                errors.push(message);
            },
            Setting::Absent => {},
        }
        assert(texts(errors@) =~= setting_error(settings.excluded_files));
        match settings.ignored {
            Setting::Valid(names) => {
                self.diagnostics_ignored = names;
                updated_diagnostics = true;
            },
            Setting::Invalid(message) => {
                errors.push(message);
            },
            Setting::Absent => {},
        }
        assert(texts(errors@) =~= setting_error(settings.excluded_files) + setting_error(
            settings.ignored,
        ));
        match settings.nix_binary {
            Setting::Valid(binary) => {
                self.nix_binary = binary;
            },
            Setting::Invalid(message) => {
                errors.push(message);
            },
            Setting::Absent => {},
        }
        assert(texts(errors@) =~= settings.errors());
        (errors, updated_diagnostics)
    }
}

} // verus!
