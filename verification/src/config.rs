//! The user's settings, and the part of them that a lab shares.

use crate::text;
use vstd::prelude::*;

verus! {

// ---- the settings ---------------------------------------------------------

/// The user's settings.
#[derive(Debug, PartialEq, Eq)]
pub struct Config {
    pub last_collection: Option<String>,
    pub zotero_data_dir: String,
    /// The chat model, such as "gpt-4o" or "ollama/llama3.1".
    pub model: String,
    /// The embedding model. An index is kept per embedding model.
    pub embedding: String,
    /// The base URL of a self-hosted backend. None: the provider's own.
    pub api_base: Option<String>,
    /// The cluster that holds a shared vector index. None: the index is local.
    pub qdrant_url: Option<String>,
    /// The key to that cluster. It never leaves for the window.
    pub qdrant_api_key: Option<String>,
    /// The key to the model. It never leaves for the window.
    pub api_key: Option<String>,
    /// The user's research field: all that feedback says of the user.
    pub field: String,
    /// May feedback be sent? None: the user was not asked yet.
    pub tele_consent: Option<bool>,
}

#[verifier::ext_equal]
pub struct ConfigView {
    pub last_collection: Option<Seq<char>>,
    pub zotero_data_dir: Seq<char>,
    pub model: Seq<char>,
    pub embedding: Seq<char>,
    pub api_base: Option<Seq<char>>,
    pub qdrant_url: Option<Seq<char>>,
    pub qdrant_api_key: Option<Seq<char>>,
    pub api_key: Option<Seq<char>>,
    pub field: Seq<char>,
    pub tele_consent: Option<bool>,
}

impl DeepView for Config {
    type V = ConfigView;

    open spec fn deep_view(&self) -> ConfigView {
        ConfigView {
            last_collection: self.last_collection.deep_view(),
            zotero_data_dir: self.zotero_data_dir@,
            model: self.model@,
            embedding: self.embedding@,
            api_base: self.api_base.deep_view(),
            qdrant_url: self.qdrant_url.deep_view(),
            qdrant_api_key: self.qdrant_api_key.deep_view(),
            api_key: self.api_key.deep_view(),
            field: self.field@,
            tele_consent: self.tele_consent,
        }
    }
}

impl Clone for Config {
    fn clone(&self) -> (r: Self)
        ensures
            r.deep_view() == self.deep_view(),
    {
        Config {
            last_collection: self.last_collection.clone(),
            zotero_data_dir: self.zotero_data_dir.clone(),
            model: self.model.clone(),
            embedding: self.embedding.clone(),
            api_base: self.api_base.clone(),
            qdrant_url: self.qdrant_url.clone(),
            qdrant_api_key: self.qdrant_api_key.clone(),
            api_key: self.api_key.clone(),
            field: self.field.clone(),
            tele_consent: self.tele_consent,
        }
    }
}

// ---- defaults -------------------------------------------------------------

/// The embedding model of a fresh install.
pub fn default_embedding() -> (r: String)
    ensures
        r@ == "text-embedding-3-small"@,
{
    "text-embedding-3-small".to_string()
}

/// The chat model of a fresh install.
pub fn default_model() -> (r: String)
    ensures
        r@ == "gpt-4o"@,
{
    "gpt-4o".to_string()
}

/// The folder "Zotero" in the user's home directory, or by itself where the home
/// directory is not known.
pub open spec fn zotero_dir_in(home: Option<Seq<char>>) -> Seq<char> {
    match home {
        Some(home) => if home.len() == 0 {
            "Zotero"@
        } else if home.last() == '/' {
            home + "Zotero"@
        } else {
            home + "/"@ + "Zotero"@
        },
        None => "Zotero"@,
    }
}

/// The folder "Zotero" in the given home directory.
pub fn zotero_dir_under(home: Option<String>) -> (r: String)
    ensures
        r@ == zotero_dir_in(home.deep_view()),
{
    match home {
        Some(home) => {
            let chars = text::chars_of(home.as_str());
            let mut r = home;
            if chars.len() > 0 && chars[chars.len() - 1] != '/' {
                r.append("/");
            }
            r.append("Zotero");
            assert(r@ =~= zotero_dir_in(Some(home@)));
            r
        },
        None => "Zotero".to_string(),
    }
}

/// `dirs::home_dir` asks the system for the user's home directory. What it
/// answers is up to the machine: nothing is claimed of it.
#[verifier::external_body]
fn home_dir() -> (r: Option<String>) {
    dirs::home_dir().map(|home| home.to_string_lossy().into_owned())
}

/// Where Zotero keeps its data unless told otherwise: in the folder "Zotero" of
/// the user's home directory.
pub fn default_zotero_dir() -> (r: String)
    ensures
        exists|home: Option<Seq<char>>| r@ == #[trigger] zotero_dir_in(home),
{
    let home = home_dir();
    let ghost path = home.deep_view();
    let r = zotero_dir_under(home);
    assert(r@ == zotero_dir_in(path));
    r
}

/// The settings of a fresh install, for the given home directory.
pub open spec fn default_config(home: Option<Seq<char>>) -> ConfigView {
    ConfigView {
        last_collection: None,
        zotero_data_dir: zotero_dir_in(home),
        model: "gpt-4o"@,
        embedding: "text-embedding-3-small"@,
        api_base: None,
        qdrant_url: None,
        qdrant_api_key: None,
        api_key: None,
        field: Seq::empty(),
        tele_consent: None,
    }
}

impl Config {
    /// The settings of a fresh install, for the given home directory.
    pub fn default_under(home: Option<String>) -> (r: Config)
        ensures
            r.deep_view() == default_config(home.deep_view()),
    {
        Config {
            last_collection: None,
            zotero_data_dir: zotero_dir_under(home),
            model: default_model(),
            embedding: default_embedding(),
            api_base: None,
            qdrant_url: None,
            qdrant_api_key: None,
            api_key: None,
            field: String::new(),
            tele_consent: None,
        }
    }
}

impl Default for Config {
    fn default() -> (r: Self)
        ensures
            exists|home: Option<Seq<char>>| r.deep_view() == #[trigger] default_config(home),
    {
        let home = home_dir();
        let ghost path = home.deep_view();
        let r = Config::default_under(home);
        assert(r.deep_view() == default_config(path));
        r
    }
}

// ---- sharing with a lab ---------------------------------------------------

/// The part of the settings that an admin hands to the members of a lab as a
/// ".paperdock" file. What belongs to one machine never travels.
#[derive(Debug, PartialEq, Eq)]
pub struct LabConfig {
    pub lab_name: Option<String>,
    pub model: Option<String>,
    pub embedding: Option<String>,
    pub api_base: Option<String>,
    pub qdrant_url: Option<String>,
    pub qdrant_api_key: Option<String>,
    pub api_key: Option<String>,
    pub default_collection: Option<String>,
}

#[verifier::ext_equal]
pub struct LabConfigView {
    pub lab_name: Option<Seq<char>>,
    pub model: Option<Seq<char>>,
    pub embedding: Option<Seq<char>>,
    pub api_base: Option<Seq<char>>,
    pub qdrant_url: Option<Seq<char>>,
    pub qdrant_api_key: Option<Seq<char>>,
    pub api_key: Option<Seq<char>>,
    pub default_collection: Option<Seq<char>>,
}

impl DeepView for LabConfig {
    type V = LabConfigView;

    open spec fn deep_view(&self) -> LabConfigView {
        LabConfigView {
            lab_name: self.lab_name.deep_view(),
            model: self.model.deep_view(),
            embedding: self.embedding.deep_view(),
            api_base: self.api_base.deep_view(),
            qdrant_url: self.qdrant_url.deep_view(),
            qdrant_api_key: self.qdrant_api_key.deep_view(),
            api_key: self.api_key.deep_view(),
            default_collection: self.default_collection.deep_view(),
        }
    }
}

impl Clone for LabConfig {
    fn clone(&self) -> (r: Self)
        ensures
            r.deep_view() == self.deep_view(),
    {
        LabConfig {
            lab_name: self.lab_name.clone(),
            model: self.model.clone(),
            embedding: self.embedding.clone(),
            api_base: self.api_base.clone(),
            qdrant_url: self.qdrant_url.clone(),
            qdrant_api_key: self.qdrant_api_key.clone(),
            api_key: self.api_key.clone(),
            default_collection: self.default_collection.clone(),
        }
    }
}

/// A lab config that sets nothing.
pub open spec fn empty_lab() -> LabConfigView {
    LabConfigView {
        lab_name: None,
        model: None,
        embedding: None,
        api_base: None,
        qdrant_url: None,
        qdrant_api_key: None,
        api_key: None,
        default_collection: None,
    }
}

impl Default for LabConfig {
    fn default() -> (r: Self)
        ensures
            r.deep_view() == empty_lab(),
    {
        LabConfig {
            lab_name: None,
            model: None,
            embedding: None,
            api_base: None,
            qdrant_url: None,
            qdrant_api_key: None,
            api_key: None,
            default_collection: None,
        }
    }
}

/// The name by which a lab is shown: its own, unless that is missing or blank.
pub open spec fn shown_name(lab: LabConfigView) -> Seq<char> {
    match lab.lab_name {
        Some(name) => if text::is_blank(name) {
            "your lab"@
        } else {
            name
        },
        None => "your lab"@,
    }
}

impl LabConfig {
    /// The name by which a lab is shown.
    pub fn summary_name(&self) -> (r: String)
        ensures
            r@ == shown_name(self.deep_view()),
    {
        match &self.lab_name {
            Some(name) => if text::blank(name.as_str()) {
                "your lab".to_string()
            } else {
                name.clone()
            },
            None => "your lab".to_string(),
        }
    }
}

/// What of the settings a lab config carries. The key to the model travels only
/// where asked for.
pub open spec fn shared_part(config: ConfigView, include_key: bool) -> LabConfigView {
    LabConfigView {
        lab_name: None,
        model: Some(config.model),
        embedding: Some(config.embedding),
        api_base: config.api_base,
        qdrant_url: config.qdrant_url,
        qdrant_api_key: config.qdrant_api_key,
        api_key: if include_key {
            config.api_key
        } else {
            None
        },
        default_collection: None,
    }
}

/// The given value, or the other where there is none.
pub open spec fn either(given: Option<Seq<char>>, other: Option<Seq<char>>) -> Option<Seq<char>> {
    if given is Some {
        given
    } else {
        other
    }
}

/// The settings after a lab config has been merged into them: what it provides
/// overrides, and its collection is taken where none was chosen yet.
pub open spec fn merged(config: ConfigView, lab: LabConfigView) -> ConfigView {
    ConfigView {
        last_collection: either(config.last_collection, lab.default_collection),
        model: either(lab.model, Some(config.model))->Some_0,
        embedding: either(lab.embedding, Some(config.embedding))->Some_0,
        api_base: either(lab.api_base, config.api_base),
        qdrant_url: either(lab.qdrant_url, config.qdrant_url),
        qdrant_api_key: either(lab.qdrant_api_key, config.qdrant_api_key),
        api_key: either(lab.api_key, config.api_key),
        ..config
    }
}

impl Config {
    /// The part of the settings to hand to a lab. Without `include_key` the key to
    /// the model stays behind, for labs whose members have keys of their own.
    pub fn to_lab_config(&self, include_key: bool) -> (r: LabConfig)
        ensures
            r.deep_view() == shared_part(self.deep_view(), include_key),
    {
        LabConfig {
            lab_name: None,
            model: Some(self.model.clone()),
            embedding: Some(self.embedding.clone()),
            api_base: self.api_base.clone(),
            qdrant_url: self.qdrant_url.clone(),
            qdrant_api_key: self.qdrant_api_key.clone(),
            api_key: if include_key {
                self.api_key.clone()
            } else {
                None
            },
            default_collection: None,
        }
    }

    /// Merges a lab config into the settings.
    pub fn apply_lab_config(&mut self, lab: &LabConfig)
        ensures
            final(self).deep_view() == merged(old(self).deep_view(), lab.deep_view()),
    {
        if let Some(model) = &lab.model {
            self.model = model.clone();
        }
        if let Some(embedding) = &lab.embedding {
            self.embedding = embedding.clone();
        }
        if lab.api_base.is_some() {
            self.api_base = lab.api_base.clone();
        }
        if lab.qdrant_url.is_some() {
            self.qdrant_url = lab.qdrant_url.clone();
        }
        if lab.qdrant_api_key.is_some() {
            self.qdrant_api_key = lab.qdrant_api_key.clone();
        }
        if lab.api_key.is_some() {
            self.api_key = lab.api_key.clone();
        }
        if self.last_collection.is_none() {
            if let Some(collection) = &lab.default_collection {
                self.last_collection = Some(collection.clone());
            }
        }
    }
}

/// Nothing that a lab config could carry has been set: the models are those of a
/// fresh install, and there is neither a URL nor a key.
pub open spec fn is_unset(config: ConfigView) -> bool {
    &&& config.model == "gpt-4o"@
    &&& config.embedding == "text-embedding-3-small"@
    &&& !has_text(config.api_base)
    &&& !has_text(config.qdrant_url)
    &&& !has_text(config.qdrant_api_key)
    &&& !has_text(config.api_key)
}

/// The lab config to write to a file. There is none as long as nothing has been set.
pub fn export_lab_config(config: &Config, include_key: bool) -> (r: Result<LabConfig, String>)
    ensures
        match r {
            Ok(lab) => !is_unset(config.deep_view()) && lab.deep_view() == shared_part(
                config.deep_view(),
                include_key,
            ),
            Err(message) => is_unset(config.deep_view()) && message@
                == "Nothing to export yet."@,
        },
{
    if text::same_text(config.model.as_str(), "gpt-4o") && text::same_text(
        config.embedding.as_str(),
        "text-embedding-3-small",
    ) && !given(&config.api_base) && !given(&config.qdrant_url) && !given(
        &config.qdrant_api_key,
    ) && !given(&config.api_key) {
        return Err("Nothing to export yet.".to_string());
    }
    Ok(config.to_lab_config(include_key))
}

/// The name that the file of a lab config is given: the lab's, if it has one.
pub open spec fn file_name_for(lab: LabConfigView) -> Seq<char> {
    match unless_blank(lab.lab_name) {
        Some(name) => name + ".paperdock"@,
        None => "paperdock-lab.paperdock"@,
    }
}

impl LabConfig {
    /// The name that the file of the lab config is given.
    pub fn file_name(&self) -> (r: String)
        ensures
            r@ == file_name_for(self.deep_view()),
    {
        if let Some(name) = &self.lab_name {
            if !text::blank(name.as_str()) {
                let mut r = name.clone();
                r.append(".paperdock");
                return r;
            }
        }
        "paperdock-lab.paperdock".to_string()
    }
}

/// What came of opening a lab config file.
#[derive(Debug, PartialEq, Eq)]
pub enum LabFile {
    Unreadable,
    NotALabConfig,
    Lab(LabConfig),
}

/// What importing a lab config file reports: the lab's name, or that the file is no
/// lab config, be it that it cannot be read or that it holds something else.
pub open spec fn import_report(file: LabFile) -> Result<Seq<char>, Seq<char>> {
    match file {
        LabFile::Unreadable | LabFile::NotALabConfig => Err(
            "That doesn't look like a PaperDock lab config file."@,
        ),
        LabFile::Lab(lab) => Ok(shown_name(lab.deep_view())),
    }
}

/// The settings after importing a lab config file. A file that is no lab config
/// changes nothing.
pub open spec fn imported(config: ConfigView, file: LabFile) -> ConfigView {
    match file {
        LabFile::Lab(lab) => merged(config, lab.deep_view()),
        _ => config,
    }
}

/// Takes over a lab config file, and reports the lab's name or what was wrong
/// with the file.
pub fn apply_lab_file(config: &mut Config, file: &LabFile) -> (r: Result<String, String>)
    ensures
        final(config).deep_view() == imported(old(config).deep_view(), *file),
        match r {
            Ok(name) => import_report(*file) == Ok::<Seq<char>, Seq<char>>(name@),
            Err(message) => import_report(*file) == Err::<Seq<char>, Seq<char>>(message@),
        },
{
    match file {
        LabFile::Unreadable | LabFile::NotALabConfig => Err(
            "That doesn't look like a PaperDock lab config file.".to_string(),
        ),
        LabFile::Lab(lab) => {
            config.apply_lab_config(lab);
            Ok(lab.summary_name())
        },
    }
}

// ---- loading --------------------------------------------------------------

/// Is there a key, and is it more than blank?
pub open spec fn has_text(key: Option<Seq<char>>) -> bool {
    key matches Some(k) && !text::is_blank(k)
}

fn given(key: &Option<String>) -> (r: bool)
    ensures
        r == has_text(key.deep_view()),
{
    match key {
        Some(k) => !text::blank(k.as_str()),
        None => false,
    }
}

/// The value, unless it is blank.
pub open spec fn unless_blank(value: Option<Seq<char>>) -> Option<Seq<char>> {
    if has_text(value) {
        value
    } else {
        None
    }
}

/// The text, or the other where it is blank.
pub open spec fn text_or(value: Seq<char>, other: Seq<char>) -> Seq<char> {
    if text::is_blank(value) {
        other
    } else {
        value
    }
}

/// The settings with every blank field at its default.
pub open spec fn filled(config: ConfigView, home: Option<Seq<char>>) -> ConfigView {
    ConfigView {
        last_collection: unless_blank(config.last_collection),
        zotero_data_dir: text_or(config.zotero_data_dir, zotero_dir_in(home)),
        model: text_or(config.model, "gpt-4o"@),
        embedding: text_or(config.embedding, "text-embedding-3-small"@),
        api_base: unless_blank(config.api_base),
        qdrant_url: unless_blank(config.qdrant_url),
        qdrant_api_key: unless_blank(config.qdrant_api_key),
        api_key: unless_blank(config.api_key),
        field: text_or(config.field, Seq::empty()),
        tele_consent: config.tele_consent,
    }
}

fn drop_blank(value: Option<String>) -> (r: Option<String>)
    ensures
        r.deep_view() == unless_blank(value.deep_view()),
{
    match value {
        Some(v) => if text::blank(v.as_str()) {
            None
        } else {
            Some(v)
        },
        None => None,
    }
}

fn or_default(value: String, other: String) -> (r: String)
    ensures
        r@ == text_or(value@, other@),
{
    if text::blank(value.as_str()) {
        other
    } else {
        value
    }
}

/// Settings, and whether they are to be written to disk.
#[derive(Debug, PartialEq, Eq)]
pub struct Loaded {
    pub config: Config,
    pub save: bool,
}

#[verifier::ext_equal]
pub struct LoadedView {
    pub config: ConfigView,
    pub save: bool,
}

impl DeepView for Loaded {
    type V = LoadedView;

    open spec fn deep_view(&self) -> LoadedView {
        LoadedView { config: self.config.deep_view(), save: self.save }
    }
}

/// Saved settings without a key take the key that the app came with, if it came
/// with one.
pub open spec fn healed(saved: ConfigView, team: Option<ConfigView>) -> LoadedView {
    match team {
        Some(team) => if !has_text(saved.api_key) && has_text(team.api_key) {
            LoadedView { config: ConfigView { api_key: team.api_key, ..saved }, save: true }
        } else {
            LoadedView { config: saved, save: false }
        },
        None => LoadedView { config: saved, save: false },
    }
}

/// The settings to start with: the saved ones, else those that the app came with,
/// else the defaults.
pub open spec fn start_config(
    saved: Option<ConfigView>,
    team: Option<ConfigView>,
    home: Option<Seq<char>>,
) -> LoadedView {
    match (saved, team) {
        (Some(saved), team) => healed(saved, team),
        (None, Some(team)) => LoadedView { config: team, save: true },
        (None, None) => LoadedView { config: default_config(home), save: false },
    }
}

impl Config {
    /// The settings with every blank field at its default, for the given home
    /// directory.
    pub fn fill_blanks_under(self, home: Option<String>) -> (r: Config)
        ensures
            r.deep_view() == filled(self.deep_view(), home.deep_view()),
    {
        Config {
            last_collection: drop_blank(self.last_collection),
            zotero_data_dir: or_default(self.zotero_data_dir, zotero_dir_under(home)),
            model: or_default(self.model, default_model()),
            embedding: or_default(self.embedding, default_embedding()),
            api_base: drop_blank(self.api_base),
            qdrant_url: drop_blank(self.qdrant_url),
            qdrant_api_key: drop_blank(self.qdrant_api_key),
            api_key: drop_blank(self.api_key),
            field: or_default(self.field, String::new()),
            tele_consent: self.tele_consent,
        }
    }

    /// The settings that the app came with: blank fields fall back to their
    /// defaults.
    pub fn fill_blanks(self) -> (r: Config)
        ensures
            exists|home: Option<Seq<char>>| r.deep_view() == #[trigger] filled(
                self.deep_view(),
                home,
            ),
    {
        let home = home_dir();
        let ghost path = home.deep_view();
        let r = self.fill_blanks_under(home);
        assert(r.deep_view() == filled(self.deep_view(), path));
        r
    }

    /// Are the settings that the app came with of any use beside the saved ones?
    pub fn wants_team(saved: Option<&Config>) -> (r: bool)
        ensures
            r == match saved {
                Some(saved) => !has_text(saved.deep_view().api_key),
                None => true,
            },
    {
        match saved {
            Some(saved) => !given(&saved.api_key),
            None => true,
        }
    }

    /// The settings to start with, for the given home directory.
    pub fn load_under(saved: Option<Config>, team: Option<Config>, home: Option<String>) -> (r:
        Loaded)
        ensures
            r.deep_view() == start_config(
                saved.deep_view(),
                team.deep_view(),
                home.deep_view(),
            ),
    {
        match saved {
            Some(saved) => {
                let mut config = saved;
                if !given(&config.api_key) {
                    if let Some(team) = team {
                        if given(&team.api_key) {
                            config.api_key = team.api_key;
                            return Loaded { config, save: true };
                        }
                    }
                }
                Loaded { config, save: false }
            },
            None => match team {
                Some(team) => Loaded { config: team, save: true },
                None => Loaded { config: Config::default_under(home), save: false },
            },
        }
    }

    /// The settings to start with: the saved ones, with the key that the app came
    /// with where they have none; on a first run those that the app came with;
    /// else the defaults.
    pub fn load(saved: Option<Config>, team: Option<Config>) -> (r: Loaded)
        ensures
            exists|home: Option<Seq<char>>| r.deep_view() == #[trigger] start_config(
                saved.deep_view(),
                team.deep_view(),
                home,
            ),
    {
        let home = home_dir();
        let ghost path = home.deep_view();
        let r = Config::load_under(saved, team, home);
        assert(r.deep_view() == start_config(saved.deep_view(), team.deep_view(), path));
        r
    }
}

// ---- the window's view ----------------------------------------------------

/// What the window gets to see of the settings: no key.
#[derive(Debug, PartialEq, Eq)]
pub struct UiConfig {
    pub last_collection: Option<String>,
    pub model: String,
    pub embedding: String,
    pub api_base: String,
    pub qdrant_url: String,
    pub has_qdrant_key: bool,
    pub has_api_key: bool,
}

#[verifier::ext_equal]
pub struct UiConfigView {
    pub last_collection: Option<Seq<char>>,
    pub model: Seq<char>,
    pub embedding: Seq<char>,
    pub api_base: Seq<char>,
    pub qdrant_url: Seq<char>,
    pub has_qdrant_key: bool,
    pub has_api_key: bool,
}

impl DeepView for UiConfig {
    type V = UiConfigView;

    open spec fn deep_view(&self) -> UiConfigView {
        UiConfigView {
            last_collection: self.last_collection.deep_view(),
            model: self.model@,
            embedding: self.embedding@,
            api_base: self.api_base@,
            qdrant_url: self.qdrant_url@,
            has_qdrant_key: self.has_qdrant_key,
            has_api_key: self.has_api_key,
        }
    }
}

/// The text, or the empty one where there is none.
pub open spec fn or_empty(value: Option<Seq<char>>) -> Seq<char> {
    match value {
        Some(v) => v,
        None => Seq::empty(),
    }
}

/// The text, or the empty one where there is none.
pub(crate) fn text_or_empty(value: &Option<String>) -> (r: String)
    ensures
        r@ == or_empty(value.deep_view()),
{
    match value {
        Some(v) => v.clone(),
        None => String::new(),
    }
}

/// What the window gets to see. A key in the environment counts as well.
pub open spec fn seen_by_window(config: ConfigView, key_in_environment: bool) -> UiConfigView {
    UiConfigView {
        last_collection: config.last_collection,
        model: config.model,
        embedding: config.embedding,
        api_base: or_empty(config.api_base),
        qdrant_url: or_empty(config.qdrant_url),
        has_qdrant_key: has_text(config.qdrant_api_key),
        has_api_key: has_text(config.api_key) || key_in_environment,
    }
}

/// The environment variable that can hold the key to the model.
pub const KEY_VARIABLE: &'static str = "OPENAI_API_KEY";

/// Does the value of that variable count as a key? It must be there, and not blank.
pub fn key_counts(value: Option<&str>) -> (r: bool)
    ensures
        r == has_text(
            match value {
                Some(v) => Some(v@),
                None => None,
            },
        ),
{
    match value {
        Some(v) => !text::blank(v),
        None => false,
    }
}

/// What the window gets to see of the settings. `key_in_environment` says whether
/// the environment holds a key that counts.
pub fn get_config(config: &Config, key_in_environment: bool) -> (r: UiConfig)
    ensures
        r.deep_view() == seen_by_window(config.deep_view(), key_in_environment),
{
    UiConfig {
        last_collection: config.last_collection.clone(),
        model: config.model.clone(),
        embedding: config.embedding.clone(),
        api_base: text_or_empty(&config.api_base),
        qdrant_url: text_or_empty(&config.qdrant_url),
        has_qdrant_key: given(&config.qdrant_api_key),
        has_api_key: given(&config.api_key) || key_in_environment,
    }
}

// ---- changing the settings ------------------------------------------------

/// What was typed into a field: its text without the white space around it, or
/// nothing where that is empty.
pub open spec fn typed(s: Seq<char>) -> Option<Seq<char>> {
    if text::is_blank(s) {
        None
    } else {
        Some(text::trimmed(s))
    }
}

fn typed_text(s: &str) -> (r: Option<String>)
    ensures
        r.deep_view() == typed(s@),
{
    let t = text::trim(s);
    if t.as_str().is_empty() {
        None
    } else {
        Some(t)
    }
}

/// The settings after a key was entered. An empty one clears the key.
pub open spec fn with_api_key(config: ConfigView, key: Seq<char>) -> ConfigView {
    ConfigView { api_key: typed(key), ..config }
}

/// Sets the key to the model. An empty one clears it.
pub fn set_api_key(config: &mut Config, key: &str)
    ensures
        final(config).deep_view() == with_api_key(old(config).deep_view(), key@),
{
    config.api_key = typed_text(key);
}

/// The settings after the settings form was saved. A blank model or embedding
/// keeps the old one, and a blank key to the cluster keeps the saved one, unless
/// the cluster's URL is blank too.
pub open spec fn with_settings(
    config: ConfigView,
    model: Seq<char>,
    embedding: Seq<char>,
    api_base: Seq<char>,
    qdrant_url: Seq<char>,
    qdrant_key: Seq<char>,
) -> ConfigView {
    ConfigView {
        model: either(typed(model), Some(config.model))->Some_0,
        embedding: either(typed(embedding), Some(config.embedding))->Some_0,
        api_base: typed(api_base),
        qdrant_url: typed(qdrant_url),
        qdrant_api_key: if typed(qdrant_url) is None {
            None
        } else {
            either(typed(qdrant_key), config.qdrant_api_key)
        },
        ..config
    }
}

/// Takes over what was entered in the settings form.
pub fn set_settings(
    config: &mut Config,
    model: &str,
    embedding: &str,
    api_base: &str,
    qdrant_url: &str,
    qdrant_key: &str,
)
    ensures
        final(config).deep_view() == with_settings(
            old(config).deep_view(),
            model@,
            embedding@,
            api_base@,
            qdrant_url@,
            qdrant_key@,
        ),
{
    if let Some(model) = typed_text(model) {
        config.model = model;
    }
    if let Some(embedding) = typed_text(embedding) {
        config.embedding = embedding;
    }
    config.api_base = typed_text(api_base);
    config.qdrant_url = typed_text(qdrant_url);
    if let Some(key) = typed_text(qdrant_key) {
        config.qdrant_api_key = Some(key);
    }
    if config.qdrant_url.is_none() {
        config.qdrant_api_key = None;
    }
}

/// Remembers the collection that was chosen last.
pub fn set_last_collection(config: &mut Config, key: String)
    ensures
        final(config).deep_view() == (ConfigView {
            last_collection: Some(key@),
            ..old(config).deep_view()
        }),
{
    config.last_collection = Some(key);
}

// ---- laws -----------------------------------------------------------------

/// What a lab config carries from one machine to another: the receiver ends up
/// with the sender's models, with whatever else the sender had set, and for the
/// rest with its own.
pub proof fn law_shared_settings_arrive(sender: ConfigView, receiver: ConfigView, include_key: bool)
    ensures
        ({
            let after = merged(receiver, shared_part(sender, include_key));
            &&& after.model == sender.model
            &&& after.embedding == sender.embedding
            &&& after.api_base == either(sender.api_base, receiver.api_base)
            &&& after.qdrant_url == either(sender.qdrant_url, receiver.qdrant_url)
            &&& after.qdrant_api_key == either(sender.qdrant_api_key, receiver.qdrant_api_key)
            &&& after.api_key == if include_key {
                either(sender.api_key, receiver.api_key)
            } else {
                receiver.api_key
            }
        }),
{
}

/// A fresh install that imports a lab config has the sender's shared settings,
/// field for field.
pub proof fn law_fresh_install_matches(sender: ConfigView, home: Option<Seq<char>>)
    ensures
        ({
            let fresh = default_config(home);
            let after = merged(fresh, shared_part(sender, true));
            shared_part(after, true) == shared_part(sender, true)
        }),
{
    law_shared_settings_arrive(sender, default_config(home), true);
}

/// Importing a lab config leaves alone what belongs to the machine and its user:
/// Zotero's folder, the collection once one is chosen, the field and the consent.
pub proof fn law_import_keeps_what_is_local(config: ConfigView, lab: LabConfigView)
    ensures
        merged(config, lab).zotero_data_dir == config.zotero_data_dir,
        config.last_collection is Some ==> merged(config, lab).last_collection
            == config.last_collection,
        config.last_collection is None ==> merged(config, lab).last_collection
            == lab.default_collection,
        merged(config, lab).field == config.field,
        merged(config, lab).tele_consent == config.tele_consent,
{
}

/// Importing a lab config twice does what importing it once does.
pub proof fn law_import_twice_is_import_once(config: ConfigView, lab: LabConfigView)
    ensures
        merged(merged(config, lab), lab) == merged(config, lab),
{
}

/// Importing what one exported oneself changes nothing.
pub proof fn law_own_export_changes_nothing(config: ConfigView, include_key: bool)
    ensures
        merged(config, shared_part(config, include_key)) == config,
{
}

/// A lab config that sets nothing changes nothing.
pub proof fn law_empty_lab_changes_nothing(config: ConfigView)
    ensures
        merged(config, empty_lab()) == config,
{
}

/// What is exported does not depend on what belongs to the machine and its user,
/// nor, without the key, on the key.
pub proof fn law_export_carries_no_more(
    config: ConfigView,
    last_collection: Option<Seq<char>>,
    zotero_data_dir: Seq<char>,
    field: Seq<char>,
    tele_consent: Option<bool>,
    api_key: Option<Seq<char>>,
)
    ensures
        ({
            let other = ConfigView {
                last_collection,
                zotero_data_dir,
                field,
                tele_consent,
                ..config
            };
            &&& shared_part(other, true) == shared_part(config, true)
            &&& shared_part(ConfigView { api_key, ..other }, false) == shared_part(config, false)
            &&& shared_part(config, false).api_key is None
        }),
{
}

/// The window learns of a key only that there is one: with other keys in their
/// place it sees the same.
pub proof fn law_window_sees_no_key(
    config: ConfigView,
    api_key: Seq<char>,
    qdrant_api_key: Seq<char>,
    key_in_environment: bool,
)
    requires
        has_text(config.api_key) == !text::is_blank(api_key),
        has_text(config.qdrant_api_key) == !text::is_blank(qdrant_api_key),
    ensures
        ({
            let other = ConfigView {
                api_key: Some(api_key),
                qdrant_api_key: Some(qdrant_api_key),
                ..config
            };
            seen_by_window(other, key_in_environment) == seen_by_window(config, key_in_environment)
        }),
{
}

/// After the settings form is saved there is a key to the cluster only where there
/// is a URL, and a blank model or embedding never replaces one.
pub proof fn law_settings_are_consistent(
    config: ConfigView,
    model: Seq<char>,
    embedding: Seq<char>,
    api_base: Seq<char>,
    qdrant_url: Seq<char>,
    qdrant_key: Seq<char>,
)
    ensures
        ({
            let after = with_settings(config, model, embedding, api_base, qdrant_url, qdrant_key);
            &&& after.qdrant_url is None ==> after.qdrant_api_key is None
            &&& text::is_blank(model) ==> after.model == config.model
            &&& text::is_blank(embedding) ==> after.embedding == config.embedding
            &&& text::is_blank(qdrant_key) && after.qdrant_url is Some ==> after.qdrant_api_key
                == config.qdrant_api_key
            &&& after.api_key == config.api_key
            &&& after.zotero_data_dir == config.zotero_data_dir
            &&& after.last_collection == config.last_collection
        }),
{
}

/// Saved settings never lose a key when they are loaded, gain one whenever the app
/// came with one and they had none, and change in nothing else.
pub proof fn law_the_key_never_disappears(
    saved: ConfigView,
    team: Option<ConfigView>,
    home: Option<Seq<char>>,
)
    ensures
        ({
            let loaded = start_config(Some(saved), team, home);
            &&& has_text(saved.api_key) ==> loaded.config == saved && !loaded.save
            &&& (team matches Some(t) && has_text(t.api_key)) ==> has_text(loaded.config.api_key)
            &&& (ConfigView { api_key: saved.api_key, ..loaded.config }) == saved
            &&& loaded.save <==> !has_text(saved.api_key) && has_text(loaded.config.api_key)
        }),
{
}

/// Once loading has settled the settings and they are saved, loading them again
/// gives the same and saves nothing.
pub proof fn law_loading_settles(
    saved: Option<ConfigView>,
    team: Option<ConfigView>,
    home: Option<Seq<char>>,
)
    ensures
        ({
            let first = start_config(saved, team, home);
            start_config(Some(first.config), team, home) == (LoadedView {
                config: first.config,
                save: false,
            })
        }),
{
}

/// Filling in the blanks leaves no field blank that has a default, keeps every field
/// that is not blank, and has nothing left to do a second time.
pub proof fn law_blanks_are_filled(config: ConfigView, home: Option<Seq<char>>)
    ensures
        ({
            let f = filled(config, home);
            &&& !text::is_blank(f.model)
            &&& !text::is_blank(f.embedding)
            &&& !text::is_blank(f.zotero_data_dir)
            &&& f.api_key is Some ==> has_text(f.api_key)
            &&& !text::is_blank(config.model) ==> f.model == config.model
            &&& !text::is_blank(config.embedding) ==> f.embedding == config.embedding
            &&& !text::is_blank(config.zotero_data_dir) ==> f.zotero_data_dir
                == config.zotero_data_dir
            &&& has_text(config.api_key) ==> f.api_key == config.api_key
            &&& filled(f, home) == f
        }),
{
    reveal_strlit("gpt-4o");
    reveal_strlit("text-embedding-3-small");
    reveal_strlit("Zotero");
    reveal_strlit("/");
    text::lemma_not_blank("gpt-4o"@, 0);
    text::lemma_not_blank("text-embedding-3-small"@, 0);
    let dir = zotero_dir_in(home);
    assert(dir.last() == 'o');
    text::lemma_not_blank(dir, dir.len() - 1);
}

/// A fresh install has nothing to export, and has something as soon as a key is
/// entered.
pub proof fn law_a_fresh_install_has_nothing_to_export(home: Option<Seq<char>>, key: Seq<char>)
    ensures
        is_unset(default_config(home)),
        !text::is_blank(key) ==> !is_unset(with_api_key(default_config(home), key)),
{
    if !text::is_blank(key) {
        text::lemma_trimmed_twice(key);
    }
}

/// A usable key is one that was saved or stands in the environment, and is not blank.
pub proof fn law_window_knows_of_a_usable_key(config: ConfigView, in_environment: Option<Seq<char>>)
    ensures
        seen_by_window(config, has_text(in_environment)).has_api_key <==> has_text(config.api_key)
            || has_text(in_environment),
{
}

/// What was typed into the settings form is what is set, without the white space around
/// it: each field by itself, and nothing but the fields of the form.
pub proof fn law_settings_are_set_as_typed(
    config: ConfigView,
    model: Seq<char>,
    embedding: Seq<char>,
    api_base: Seq<char>,
    qdrant_url: Seq<char>,
    qdrant_key: Seq<char>,
)
    ensures
        ({
            let after = with_settings(config, model, embedding, api_base, qdrant_url, qdrant_key);
            &&& !text::is_blank(model) ==> after.model == text::trimmed(model)
            &&& !text::is_blank(embedding) ==> after.embedding == text::trimmed(embedding)
            &&& !text::is_blank(api_base) ==> after.api_base == Some(text::trimmed(api_base))
            &&& text::is_blank(api_base) ==> after.api_base is None
            &&& !text::is_blank(qdrant_url) ==> after.qdrant_url == Some(text::trimmed(qdrant_url))
            &&& text::is_blank(qdrant_url) ==> after.qdrant_url is None && after.qdrant_api_key
                is None
            &&& !text::is_blank(qdrant_url) && !text::is_blank(qdrant_key) ==> after.qdrant_api_key
                == Some(text::trimmed(qdrant_key))
            &&& after.field == config.field
            &&& after.tele_consent == config.tele_consent
            &&& after.zotero_data_dir == config.zotero_data_dir
            &&& after.api_key == config.api_key
        }),
{
}

/// The key is set as it was typed, without the white space around it, and nothing else is.
pub proof fn law_the_key_is_set_as_typed(config: ConfigView, key: Seq<char>)
    ensures
        ({
            let after = with_api_key(config, key);
            &&& !text::is_blank(key) ==> after.api_key == Some(text::trimmed(key))
            &&& text::is_blank(key) ==> after.api_key is None
            &&& (ConfigView { api_key: config.api_key, ..after }) == config
        }),
{
}

/// What a lab config gives takes the place of what was set, character for character, and
/// what it does not give stays.
pub proof fn law_a_lab_config_prevails(config: ConfigView, lab: LabConfigView)
    ensures
        ({
            let after = merged(config, lab);
            &&& match lab.model {
                Some(model) => after.model == model,
                None => after.model == config.model,
            }
            &&& match lab.embedding {
                Some(embedding) => after.embedding == embedding,
                None => after.embedding == config.embedding,
            }
            &&& match lab.api_base {
                Some(url) => after.api_base == Some(url),
                None => after.api_base == config.api_base,
            }
            &&& match lab.qdrant_url {
                Some(url) => after.qdrant_url == Some(url),
                None => after.qdrant_url == config.qdrant_url,
            }
            &&& match lab.qdrant_api_key {
                Some(key) => after.qdrant_api_key == Some(key),
                None => after.qdrant_api_key == config.qdrant_api_key,
            }
            &&& match lab.api_key {
                Some(key) => after.api_key == Some(key),
                None => after.api_key == config.api_key,
            }
        }),
{
}

/// A lab config carries the models, the addresses and the key to the cluster as they are
/// set, and the key to the model exactly where asked for.
pub proof fn law_an_export_carries_what_is_set(config: ConfigView, include_key: bool)
    ensures
        ({
            let lab = shared_part(config, include_key);
            &&& lab.model == Some(config.model)
            &&& lab.embedding == Some(config.embedding)
            &&& lab.api_base == config.api_base
            &&& lab.qdrant_url == config.qdrant_url
            &&& lab.qdrant_api_key == config.qdrant_api_key
            &&& include_key ==> lab.api_key == config.api_key
            &&& !include_key ==> lab.api_key is None
            &&& lab.lab_name is None
            &&& lab.default_collection is None
        }),
{
}

/// There is something to export as soon as one thing is set that a lab config carries.
pub proof fn law_whatever_is_set_can_be_exported(config: ConfigView)
    ensures
        config.model != "gpt-4o"@ ==> !is_unset(config),
        config.embedding != "text-embedding-3-small"@ ==> !is_unset(config),
        (config.api_base matches Some(url) && !text::is_blank(url)) ==> !is_unset(config),
        (config.qdrant_url matches Some(url) && !text::is_blank(url)) ==> !is_unset(config),
        (config.qdrant_api_key matches Some(key) && !text::is_blank(key)) ==> !is_unset(config),
        (config.api_key matches Some(key) && !text::is_blank(key)) ==> !is_unset(config),
{
}

/// A lab goes by its own name, character for character, as long as that is not blank.
pub proof fn law_a_lab_goes_by_its_name(lab: LabConfigView, name: Seq<char>)
    requires
        lab.lab_name == Some(name),
        !text::is_blank(name),
    ensures
        shown_name(lab) == name,
        file_name_for(lab) == name + ".paperdock"@,
{
}

/// Importing a file reports the name of the lab and takes over its config; a file that is
/// none changes nothing.
pub proof fn law_an_import_takes_the_lab_over(config: ConfigView, lab: LabConfig)
    ensures
        import_report(LabFile::Lab(lab)) == Ok::<Seq<char>, Seq<char>>(shown_name(lab.deep_view())),
        imported(config, LabFile::Lab(lab)) == merged(config, lab.deep_view()),
        imported(config, LabFile::Unreadable) == config,
        imported(config, LabFile::NotALabConfig) == config,
        import_report(LabFile::Unreadable) is Err,
        import_report(LabFile::NotALabConfig) is Err,
{
}

/// The window sees the models and the addresses as they are set, and of each key whether
/// there is one.
pub proof fn law_the_window_sees_what_is_set(config: ConfigView, key_in_environment: bool)
    ensures
        ({
            let seen = seen_by_window(config, key_in_environment);
            &&& seen.last_collection == config.last_collection
            &&& seen.model == config.model
            &&& seen.embedding == config.embedding
            &&& match config.api_base {
                Some(url) => seen.api_base == url,
                None => seen.api_base.len() == 0,
            }
            &&& match config.qdrant_url {
                Some(url) => seen.qdrant_url == url,
                None => seen.qdrant_url.len() == 0,
            }
            &&& seen.has_qdrant_key <==> (config.qdrant_api_key matches Some(key)
                && !text::is_blank(key))
            &&& seen.has_api_key <==> (config.api_key matches Some(key) && !text::is_blank(key))
                || key_in_environment
        }),
{
}

/// On a first run the app starts with the settings that it came with, as they are, and with
/// the defaults where it came with none.
pub proof fn law_a_first_run_starts_with_the_teams_settings(
    team: ConfigView,
    home: Option<Seq<char>>,
)
    ensures
        start_config(None, Some(team), home).config == team,
        start_config(None, Some(team), home).save,
        start_config(None, None, home).config == default_config(home),
        !start_config(None, None, home).save,
        default_config(home).model == "gpt-4o"@,
        default_config(home).embedding == "text-embedding-3-small"@,
        default_config(home).zotero_data_dir == zotero_dir_in(home),
        default_config(home).api_key is None,
        default_config(home).tele_consent is None,
        default_config(home).last_collection is None,
{
}

/// Saved settings without a key take the very key that the app came with.
pub proof fn law_the_teams_key_is_taken(
    saved: ConfigView,
    team: ConfigView,
    home: Option<Seq<char>>,
)
    requires
        saved.api_key is None || text::is_blank(saved.api_key->Some_0),
        team.api_key matches Some(key) && !text::is_blank(key),
    ensures
        start_config(Some(saved), Some(team), home).config == (ConfigView {
            api_key: team.api_key,
            ..saved
        }),
        start_config(Some(saved), Some(team), home).save,
{
}

/// Filling in the blanks keeps the optional fields that are not blank as they are, and
/// drops those that are.
pub proof fn law_optional_blanks_are_dropped(config: ConfigView, home: Option<Seq<char>>)
    ensures
        ({
            let f = filled(config, home);
            &&& has_text(config.api_base) ==> f.api_base == config.api_base
            &&& !has_text(config.api_base) ==> f.api_base is None
            &&& has_text(config.qdrant_url) ==> f.qdrant_url == config.qdrant_url
            &&& !has_text(config.qdrant_url) ==> f.qdrant_url is None
            &&& has_text(config.qdrant_api_key) ==> f.qdrant_api_key == config.qdrant_api_key
            &&& !has_text(config.qdrant_api_key) ==> f.qdrant_api_key is None
            &&& !has_text(config.api_key) ==> f.api_key is None
            &&& has_text(config.last_collection) ==> f.last_collection == config.last_collection
            &&& !has_text(config.last_collection) ==> f.last_collection is None
            &&& !text::is_blank(config.field) ==> f.field == config.field
            &&& text::is_blank(config.model) ==> f.model == "gpt-4o"@
            &&& text::is_blank(config.embedding) ==> f.embedding == "text-embedding-3-small"@
            &&& text::is_blank(config.zotero_data_dir) ==> f.zotero_data_dir == zotero_dir_in(home)
            &&& f.tele_consent == config.tele_consent
        }),
{
}

/// A key counts exactly when it is there and is more than white space.
pub proof fn law_a_blank_key_is_none(key: Seq<char>)
    ensures
        has_text(Some(key)) <==> !text::only_spaces(key, 0, key.len() as int),
        !has_text(None),
{
    text::law_blank_is_white_space(key);
}

/// Zotero's folder lies in the home directory, right under it.
pub proof fn law_zotero_is_in_the_home_directory(home: Seq<char>)
    requires
        home.len() > 0,
    ensures
        home.last() != '/' ==> zotero_dir_in(Some(home)) == home + "/Zotero"@,
        home.last() == '/' ==> zotero_dir_in(Some(home)) == home + "Zotero"@,
        zotero_dir_in(None) == "Zotero"@,
{
    reveal_strlit("/Zotero");
    reveal_strlit("/");
    reveal_strlit("Zotero");
    assert("/"@ + "Zotero"@ =~= "/Zotero"@);
    assert(home + "/"@ + "Zotero"@ =~= home + ("/"@ + "Zotero"@));
}

} // verus!
