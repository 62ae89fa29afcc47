use vstd::prelude::*;

use crate::config::{queued_one, ConfigError, ConfigValue, ErrorQueue, ParseError};
use crate::prompt::PromptOpts;

verus! {

/// What version control found at the working directory. The prompt only
/// stores and hands it on.
pub struct VcsInstance {
    pub kind: String,
    pub state: String,
}

/// The facts shared by every module during one render of the prompt.
pub struct Context {
    /// The working directory, as text.
    pub current_dir: String,
    pub vcs_instance: Option<VcsInstance>,
    pub prompt_opts: PromptOpts,
    /// The global configuration document, when one was loaded.
    pub prompt_config: Option<ConfigValue>,
}

/// A module's configuration, read from the module's own section.
pub trait ModuleConfig: Sized {
    /// This value is the configuration's default.
    spec fn is_default(&self) -> bool;

    /// `section` can be read as this configuration.
    spec fn accepts(section: ConfigValue) -> bool;

    /// This value is what `section` reads as.
    spec fn parsed_from(&self, section: ConfigValue) -> bool;

    /// Reading `section` fails with `error`.
    spec fn fails_with(section: ConfigValue, error: ParseError) -> bool;

    /// An empty section reads as the default.
    proof fn lemma_empty_section_is_default(section: ConfigValue, c: Self)
        requires
            section matches ConfigValue::Table(entries) && entries@.len() == 0,
        ensures
            Self::accepts(section),
            c.parsed_from(section) ==> c.is_default(),
    ;

    fn default_config() -> (r: Self)
        ensures
            r.is_default(),
    ;

    fn from_section(section: &ConfigValue) -> (r: Result<Self, ParseError>)
        ensures
            r is Ok <==> Self::accepts(*section),
            r matches Ok(c) ==> c.parsed_from(*section),
            r matches Err(e) ==> Self::fails_with(*section, e),
    ;
}

/// The section named `name` of the document `config`, if there is one.
pub open spec fn section_for(config: Option<ConfigValue>, name: Seq<char>) -> Option<ConfigValue> {
    match config {
        Some(doc) => doc.spec_get(name),
        None => None,
    }
}

/// `r` is the configuration that `section` gives the module `name`, and
/// the queue went from `before` to `after`: a missing section gives the
/// default; a section that cannot be read gives the default and one entry
/// in the queue, which names the module and holds the reason.
pub open spec fn config_loaded<T: ModuleConfig>(
    section: Option<ConfigValue>,
    name: Seq<char>,
    r: T,
    before: Seq<ConfigError>,
    after: Seq<ConfigError>,
) -> bool {
    match section {
        None => r.is_default() && after == before,
        Some(s) => if T::accepts(s) {
            r.parsed_from(s) && after == before
        } else {
            &&& r.is_default()
            &&& queued_one(before, after, name)
            &&& match after.last() {
                ConfigError::InvalidConfig { error, .. } => T::fails_with(s, error),
            }
        },
    }
}

/// A document that has no section for a module gives that module just what
/// no document at all gives it: the default, with the queue left as it was.
pub proof fn lemma_missing_section_is_no_document<T: ModuleConfig>(
    config: ConfigValue,
    name: Seq<char>,
    r: T,
    before: Seq<ConfigError>,
    after: Seq<ConfigError>,
)
    requires
        config.spec_get(name) is None,
    ensures
        config_loaded(section_for(Some(config), name), name, r, before, after) == config_loaded(
            section_for(None, name),
            name,
            r,
            before,
            after,
        ),
        config_loaded(section_for(Some(config), name), name, r, before, after) <==> (r.is_default()
            && after == before),
{
}

/// A section that is there but cannot be read gives the default, and the
/// queue grows by exactly one entry, which names the module and holds why
/// the section could not be read.
pub proof fn lemma_unreadable_section_queues_one<T: ModuleConfig>(
    config: ConfigValue,
    name: Seq<char>,
    r: T,
    before: Seq<ConfigError>,
    after: Seq<ConfigError>,
)
    requires
        config.spec_get(name) is Some,
        !T::accepts(config.spec_get(name)->Some_0),
        config_loaded(section_for(Some(config), name), name, r, before, after),
    ensures
        r.is_default(),
        after.len() == before.len() + 1,
        after.drop_last() == before,
        match after.last() {
            ConfigError::InvalidConfig { module, error } => module@ == name && T::fails_with(
                config.spec_get(name)->Some_0,
                error,
            ),
        },
{
}

impl Context {
    pub fn new(
        prompt_opts: PromptOpts,
        current_dir: String,
        vcs_instance: Option<VcsInstance>,
        prompt_config: Option<ConfigValue>,
    ) -> (r: Context)
        ensures
            r.current_dir == current_dir,
            r.vcs_instance == vcs_instance,
            r.prompt_opts == prompt_opts,
            r.prompt_config == prompt_config,
    {
        Context { current_dir, vcs_instance, prompt_opts, prompt_config }
    }

    /// The configuration of the module `module_name`, from its section of
    /// the document.
    /// A section that cannot be read never stops the render: its problem
    /// goes to `queue` and the default is used.
    pub fn load_config<T: ModuleConfig>(&self, module_name: &str, queue: &mut ErrorQueue) -> (r: T)
        ensures
            config_loaded(
                section_for(self.prompt_config, module_name@),
                module_name@,
                r,
                old(queue)@,
                final(queue)@,
            ),
    {
        let ghost before = queue@;
        let name = module_name;
        let section = match &self.prompt_config {
            Some(doc) => doc.get(name),
            None => None,
        };
        match section {
            Some(s) => match T::from_section(s) {
                Ok(c) => c,
                Err(error) => {
                    let module = String::from_str(name);
                    queue.push(ConfigError::InvalidConfig { module, error });
                    assert(queue@.drop_last() =~= before);
                    T::default_config()
                },
            },
            None => T::default_config(),
        }
    }
}

} // verus!
