//! The settings file: one section, `GIT SETTINGS`, whose key `remote` holds
//! the address of the remote repository once one is set.

use vstd::prelude::*;
use crate::ini::{
    ini_case_sensitive, ini_contents, ini_get, ini_new_cs, ini_parsed, ini_read, ini_set,
    ini_writes,
};
use crate::model::{
    lemma_stored_beside, lemma_stored_elsewhere, lemma_stored_is_found,
    lemma_with_value_well_keyed, value_of, well_keyed, with_value, written, Contents,
};

verus! {

/// The name of the section that holds the settings.
pub open spec fn settings_section() -> Seq<char> {
    "GIT SETTINGS"@
}

/// The key of the remote repository's address.
pub open spec fn remote_key() -> Seq<char> {
    "remote"@
}

/// The remote address that a settings document holds, if any.
pub open spec fn remote_of(c: Contents) -> Option<Seq<char>> {
    value_of(c, settings_section(), remote_key())
}

/// The settings, held in a case-sensitive `configparser` document.
pub struct Config {
    ini: configparser::ini::Ini,
}

impl View for Config {
    type V = Contents;

    closed spec fn view(&self) -> Contents {
        ini_contents(self.ini)
    }
}

impl Config {
    /// The document behind the settings compares names as written and files
    /// no name twice.
    #[verifier::type_invariant]
    pub closed spec fn wf(&self) -> bool {
        ini_case_sensitive(self.ini) && well_keyed(ini_contents(self.ini))
    }

    /// Well-formed settings file no name twice.
    pub proof fn lemma_wf_well_keyed(&self)
        requires
            self.wf(),
        ensures
            well_keyed(self@),
    {
    }

    /// Settings with nothing set: no remote.
    pub fn new() -> (config: Config)
        ensures
            config@.len() == 0,
            remote_of(config@).is_none(),
    {
        Config { ini: ini_new_cs() }
    }

    /// Reads the settings from the text of their file; `None` where the
    /// parser rejects the text. The empty text gives settings without a
    /// remote.
    pub fn load(text: &str) -> (loaded: Option<Config>)
        ensures
            loaded.is_some() == ini_parsed(text@).is_some(),
            loaded matches Some(config) ==> config@ == ini_parsed(text@).unwrap(),
            text@.len() == 0 ==> loaded is Some && loaded->Some_0@.len() == 0 && remote_of(
                loaded->Some_0@,
            ).is_none(),
    {
        let mut ini = ini_new_cs();
        if ini_read(&mut ini, text) {
            Some(Config { ini })
        } else {
            None
        }
    }

    /// The address of the remote repository, if one is set.
    pub fn remote(&self) -> (address: Option<String>)
        ensures
            address.is_some() == remote_of(self@).is_some(),
            address matches Some(url) ==> url@ == remote_of(self@).unwrap(),
    {
        proof {
            use_type_invariant(self);
        }
        ini_get(&self.ini, "GIT SETTINGS", "remote")
    }

    /// Sets the address of the remote repository.
    pub fn set_remote(&mut self, url: &str)
        ensures
            final(self)@ == with_value(old(self)@, settings_section(), remote_key(), Some(url@)),
            remote_of(final(self)@) == Some(url@),
    {
        proof {
            use_type_invariant(&*self);
            lemma_with_value_well_keyed(old(self)@, settings_section(), remote_key(), Some(url@));
            lemma_stored_is_found(old(self)@, settings_section(), remote_key(), Some(url@));
        }
        // The document is taken out while it changes, so that `self` is
        // well-formed at every moment.
        let mut ini = ini_new_cs();
        std::mem::swap(&mut ini, &mut self.ini);
        ini_set(&mut ini, "GIT SETTINGS", "remote", url.to_owned());
        self.ini = ini;
    }

    /// The text of the settings file, its lines ended as the platform ends
    /// them.
    pub fn write(&self) -> (text: String)
        ensures
            written(self@, text@),
    {
        proof {
            use_type_invariant(self);
        }
        ini_writes(&self.ini)
    }
}

/// One thing that the caller does for a new remote.
#[derive(Debug, Clone, Copy, PartialEq, Eq, Structural)]
pub enum RemoteStep {
    /// Replace the settings file by the plan's text.
    WriteConfig,
    /// Register the remote with the repository under the plan's name.
    RegisterRemote,
    /// Commit the working directory under the plan's message.
    Commit,
}

/// The settings are written first, then the remote is registered, and the
/// commit comes last.
pub open spec fn remote_steps() -> Seq<RemoteStep> {
    seq![RemoteStep::WriteConfig, RemoteStep::RegisterRemote, RemoteStep::Commit]
}

/// What has to happen outside once a remote is added, in the order of
/// `steps`.
pub struct RemotePlan {
    /// What to do, first to last.
    pub steps: Vec<RemoteStep>,
    /// The new text of the settings file.
    pub config_text: String,
    /// The name under which the repository registers the remote.
    pub remote_name: String,
    /// The remote's address.
    pub url: String,
    /// The message of the commit that records the change.
    pub message: String,
}

/// Adds a remote repository: the settings take its address, and the plan
/// says what to write, register and commit, in that order.
pub fn add_remote(config: &mut Config, url: &str) -> (plan: RemotePlan)
    ensures
        final(config)@ == with_value(old(config)@, settings_section(), remote_key(), Some(url@)),
        remote_of(final(config)@) == Some(url@),
        plan.steps@ == remote_steps(),
        written(final(config)@, plan.config_text@),
        plan.remote_name@ == "origin"@,
        plan.url@ == url@,
        plan.message@ == "add remote repository"@,
{
    config.set_remote(url);
    let steps = vec![RemoteStep::WriteConfig, RemoteStep::RegisterRemote, RemoteStep::Commit];
    assert(steps@ =~= remote_steps());
    RemotePlan {
        steps,
        config_text: config.write(),
        remote_name: "origin".to_owned(),
        url: url.to_owned(),
        message: "add remote repository".to_owned(),
    }
}

/// Setting the remote changes the remote and nothing else: every other key,
/// of the settings' section or of any other, holds what it held.
pub proof fn lemma_remote_is_all_that_changes(
    before: Contents,
    url: Seq<char>,
    section: Seq<char>,
    key: Seq<char>,
)
    requires
        well_keyed(before),
        !(section == settings_section() && key == remote_key()),
    ensures
        value_of(
            with_value(before, settings_section(), remote_key(), Some(url)),
            section,
            key,
        ) == value_of(before, section, key),
{
    if section == settings_section() {
        lemma_stored_beside(before, settings_section(), remote_key(), Some(url), key);
    } else {
        lemma_stored_elsewhere(before, settings_section(), remote_key(), Some(url), section, key);
    }
}

} // verus!
