use vstd::prelude::*;

use crate::config::{ConfigValue, ErrorQueue};
use crate::context::{Context, VcsInstance};
use crate::modules::directory::{components, directory_queue, directory_separator, join};
use crate::modules::{prepare, DispatchError, ModuleSegment, PreparedModule};

verus! {

/// Options given to the prompt command.
#[derive(Debug, Default)]
pub struct PromptOpts {
    pub status: Option<String>,
}

/// The texts of `segments`, one after another.
pub open spec fn segments_text(segments: Seq<ModuleSegment>) -> Seq<char>
    decreases segments.len(),
{
    if segments.len() == 0 {
        Seq::<char>::empty()
    } else {
        segments_text(segments.drop_last()) + segments.last().text@
    }
}

/// The text of a module's output, or nothing where it has no segment.
pub fn format_output(module: &PreparedModule) -> (r: Option<String>)
    ensures
        r is None <==> module.0@.len() == 0,
        r matches Some(text) ==> text@ == segments_text(module.0@),
{
    let n = module.0.len();
    if n == 0 {
        return None;
    }
    let mut text = String::new();
    let mut i: usize = 0;
    while i < n
        invariant
            n == module.0@.len(),
            i <= n,
            text@ == segments_text(module.0@.subrange(0, i as int)),
        decreases n - i,
    {
        assert(module.0@.subrange(0, i as int + 1).drop_last() =~= module.0@.subrange(0, i as int));
        text.append(module.0[i].text.as_str());
        i = i + 1;
    }
    assert(module.0@.subrange(0, n as int) =~= module.0@);
    Some(text)
}

/// Renders the prompt for a working directory and a configuration
/// document. The directory module always renders: a section that cannot
/// be read falls back to the defaults and leaves one entry in `queue`.
pub fn render(
    prompt_opts: PromptOpts,
    current_dir: String,
    vcs_instance: Option<VcsInstance>,
    prompt_config: Option<ConfigValue>,
    queue: &mut ErrorQueue,
) -> (r: Result<String, DispatchError>)
    ensures
        r is Ok,
        r matches Ok(text) ==> text@ == join(
            components(current_dir@),
            directory_separator(prompt_config),
        ),
        directory_queue(prompt_config, old(queue)@, final(queue)@),
{
    let prompt_context = Context::new(prompt_opts, current_dir, vcs_instance, prompt_config);
    let dir_module = match prepare("directory", &prompt_context, queue) {
        Ok(m) => m,
        Err(e) => return Err(e),
    };
    let output = format_output(&dir_module);
    proof {
        assert(segments_text(dir_module.0@.drop_last()) == Seq::<char>::empty());
        assert(Seq::<char>::empty() + dir_module.0@[0].text@ =~= dir_module.0@[0].text@);
        assert(segments_text(dir_module.0@) == dir_module.0@[0].text@);
    }
    match output {
        Some(text) => Ok(text),
        None => Ok(String::new()),
    }
}

} // verus!
